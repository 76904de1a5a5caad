//! Character-level helpers: whitespace, substring search and word splitting.
use vstd::prelude::*;

verus! {

/// The characters with the Unicode `White_Space` property.
pub open spec fn is_space(c: char) -> bool {
    let u = c as u32;
    ||| 0x09 <= u <= 0x0D
    ||| u == 0x20
    ||| u == 0x85
    ||| u == 0xA0
    ||| u == 0x1680
    ||| 0x2000 <= u <= 0x200A
    ||| u == 0x2028
    ||| u == 0x2029
    ||| u == 0x202F
    ||| u == 0x205F
    ||| u == 0x3000
}

pub fn is_space_char(c: char) -> (r: bool)
    ensures
        r == is_space(c),
{
    let u = c as u32;
    (0x09 <= u && u <= 0x0D) || u == 0x20 || u == 0x85 || u == 0xA0 || u == 0x1680 || (0x2000
        <= u && u <= 0x200A) || u == 0x2028 || u == 0x2029 || u == 0x202F || u == 0x205F || u
        == 0x3000
}

/// Collects the characters of `s`.
pub fn chars_of(s: &str) -> (r: Vec<char>)
    ensures
        r@ == s@,
{
    let mut r: Vec<char> = Vec::new();
    for c in it: s.chars()
        invariant
            r@ == it.seq().take(it.index() as int),
    {
        r.push(c);
    }
    r
}


/// `pat` occurs in `text` starting at position `i`.
pub open spec fn occurs_at(text: Seq<char>, pat: Seq<char>, i: int) -> bool {
    0 <= i && i + pat.len() <= text.len() && text.subrange(i, i + pat.len()) == pat
}

/// `pat` is a substring of `text`.
pub open spec fn contains(text: Seq<char>, pat: Seq<char>) -> bool {
    exists|i: int| occurs_at(text, pat, i)
}

fn occurs_at_exec(text: &Vec<char>, pat: &Vec<char>, i: usize) -> (r: bool)
    requires
        i + pat.len() <= text.len(),
    ensures
        r == occurs_at(text@, pat@, i as int),
{
    let mut j: usize = 0;
    while j < pat.len()
        invariant
            j <= pat.len(),
            i + pat.len() <= text.len(),
            forall|k: int| 0 <= k < j ==> text@[i + k] == pat@[k],
        decreases pat.len() - j,
    {
        if text[i + j] != pat[j] {
            assert(text@.subrange(i as int, i + pat.len())[j as int] != pat@[j as int]);
            return false;
        }
        j += 1;
    }
    assert(text@.subrange(i as int, i + pat.len()) =~= pat@);
    true
}

/// Whether `pat` is a substring of `text` (case-sensitive, by characters).
pub fn str_contains(text: &str, pat: &str) -> (r: bool)
    ensures
        r == contains(text@, pat@),
{
    let t = chars_of(text);
    let p = chars_of(pat);
    if p.len() > t.len() {
        assert forall|i: int| !occurs_at(t@, p@, i) by {}
        return false;
    }
    let last = t.len() - p.len();
    let mut i: usize = 0;
    loop
        invariant
            last == t.len() - p.len(),
            p.len() <= t.len(),
            i <= last,
            t@ == text@,
            p@ == pat@,
            forall|k: int| 0 <= k < i ==> !occurs_at(t@, p@, k),
        decreases last - i,
    {
        if occurs_at_exec(&t, &p, i) {
            assert(occurs_at(text@, pat@, i as int));
            return true;
        }
        if i == last {
            assert forall|k: int| !occurs_at(t@, p@, k) by {
                if 0 <= k < i {
                }
            }
            return false;
        }
        i += 1;
    }
}


/// Relies on `String::push`: appends one character at the end.
#[verifier::external_body]
pub(crate) fn push_char(s: &mut String, c: char)
    ensures
        final(s)@ == old(s)@.push(c),
{
    s.push(c)
}

/// Relies on `String::pop`: removes the last character and returns it, or returns `None`
/// and leaves the string alone when it is empty.
#[verifier::external_body]
pub(crate) fn pop_char(s: &mut String) -> (r: Option<char>)
    ensures
        old(s)@.len() == 0 ==> r is None && final(s)@ == old(s)@,
        old(s)@.len() > 0 ==> r == Some(old(s)@.last()) && final(s)@ == old(s)@.drop_last(),
{
    s.pop()
}

/// The character views of a sequence of strings.
pub open spec fn string_views(v: Seq<String>) -> Seq<Seq<char>> {
    v.map_values(|w: String| w@)
}

/// Reading `s` from the left: the words completed so far, and the word being read
/// (empty when the last character read was whitespace).
pub open spec fn scan_words(s: Seq<char>) -> (Seq<Seq<char>>, Seq<char>)
    decreases s.len(),
{
    if s.len() == 0 {
        (Seq::empty(), Seq::empty())
    } else {
        let (done, cur) = scan_words(s.drop_last());
        let c = s.last();
        if is_space(c) {
            if cur.len() == 0 {
                (done, cur)
            } else {
                (done.push(cur), Seq::empty())
            }
        } else {
            (done, cur.push(c))
        }
    }
}

/// The maximal runs of non-whitespace characters of `s`, in order.
pub open spec fn words(s: Seq<char>) -> Seq<Seq<char>> {
    let (done, cur) = scan_words(s);
    if cur.len() == 0 {
        done
    } else {
        done.push(cur)
    }
}

/// Splits `s` on whitespace, dropping empty pieces.
pub fn split_words(s: &str) -> (r: Vec<String>)
    ensures
        string_views(r@) == words(s@),
{
    let cs = chars_of(s);
    let mut done: Vec<String> = Vec::new();
    let mut cur = String::new();
    let mut i: usize = 0;
    while i < cs.len()
        invariant
            i <= cs.len(),
            cs@ == s@,
            string_views(done@) == scan_words(cs@.take(i as int)).0,
            cur@ == scan_words(cs@.take(i as int)).1,
        decreases cs.len() - i,
    {
        let c = cs[i];
        assert(cs@.take(i + 1).drop_last() == cs@.take(i as int));
        if is_space_char(c) {
            if !cur.as_str().is_empty() {
                let w = cur;
                cur = String::new();
                proof {
                    assert(w@.len() > 0);
                }
                done.push(w);
                assert(string_views(done@) =~= scan_words(cs@.take(i as int)).0.push(w@));
            }
        } else {
            push_char(&mut cur, c);
        }
        i += 1;
    }
    assert(cs@.take(i as int) == s@);
    if !cur.as_str().is_empty() {
        let ghost before = string_views(done@);
        done.push(cur);
        assert(string_views(done@) =~= before.push(scan_words(s@).1));
    }
    done
}


/// The words of `ws`, each followed by one space.
pub open spec fn spaced(ws: Seq<Seq<char>>) -> Seq<char>
    decreases ws.len(),
{
    if ws.len() == 0 {
        Seq::empty()
    } else {
        spaced(ws.drop_last()) + ws.last().push(' ')
    }
}

/// `s` with its last word removed: the other words, each followed by one space.
pub open spec fn without_last_word(s: Seq<char>) -> Seq<char> {
    let ws = words(s);
    if ws.len() == 0 {
        Seq::empty()
    } else {
        spaced(ws.drop_last())
    }
}

/// Removes the last word of `s`, keeping the words before it, each followed by a space.
pub fn drop_last_word(s: &str) -> (r: String)
    ensures
        r@ == without_last_word(s@),
{
    let ws = split_words(s);
    let mut r = String::new();
    if ws.len() == 0 {
        return r;
    }
    let n = ws.len() - 1;
    let ghost keep = words(s@).drop_last();
    let mut k: usize = 0;
    while k < n
        invariant
            n == ws.len() - 1,
            k <= n,
            string_views(ws@) == words(s@),
            keep == words(s@).drop_last(),
            r@ == spaced(keep.take(k as int)),
        decreases n - k,
    {
        assert(keep.take(k + 1).drop_last() == keep.take(k as int));
        assert(ws@[k as int]@ == keep[k as int]);
        r.append(ws[k].as_str());
        push_char(&mut r, ' ');
        k += 1;
    }
    assert(keep.take(n as int) == keep);
    r
}

} // verus!
