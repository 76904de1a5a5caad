//! The catalog of launchable entries, built from desktop-entry records.
use vstd::prelude::*;

verus! {

/// Matches the field codes of a desktop entry's `Exec` template.
pub const FIELD_CODE_PATTERN: &'static str = "%(f|F|u|U|d|D|n|N|i|k|v|m)";

#[verifier::external_type_specification]
#[verifier::external_body]
pub struct ExRegex(regex::Regex);

/// The letters that follow `%` in a field code.
pub open spec fn is_field_code_letter(c: char) -> bool {
    ||| c == 'f'
    ||| c == 'F'
    ||| c == 'u'
    ||| c == 'U'
    ||| c == 'd'
    ||| c == 'D'
    ||| c == 'n'
    ||| c == 'N'
    ||| c == 'i'
    ||| c == 'k'
    ||| c == 'v'
    ||| c == 'm'
}

/// `s` read from the left with every field code (`%` followed by a field-code letter)
/// dropped and every other character kept.
pub open spec fn strip_field_codes(s: Seq<char>) -> Seq<char>
    decreases s.len(),
{
    if s.len() < 2 {
        s
    } else if s[0] == '%' && is_field_code_letter(s[1]) {
        strip_field_codes(s.subrange(2, s.len() as int))
    } else {
        seq![s[0]] + strip_field_codes(s.subrange(1, s.len() as int))
    }
}

/// The field-code pattern as characters.
pub open spec fn field_code_pattern() -> Seq<char> {
    FIELD_CODE_PATTERN@
}

/// A compiled regular expression together with the pattern it was compiled from.
pub(crate) struct Eraser {
    pattern: String,
    regex: regex::Regex,
}

impl Eraser {
    /// The pattern this eraser was compiled from.
    pub closed spec fn pattern(&self) -> Seq<char> {
        self.pattern@
    }

    /// Relies on `regex::Regex::new`, which returns `Err` only for an invalid or oversized
    /// pattern: the field-code pattern, an alternation of twelve two-character literals,
    /// is neither. The eraser keeps the pattern beside the compiled regex.
    #[verifier::external_body]
    pub(crate) fn compile(pattern: &str) -> (r: Option<Eraser>)
        ensures
            r matches Some(e) ==> e.pattern() == pattern@,
            pattern@ == field_code_pattern() ==> r is Some,
    {
        regex::Regex::new(pattern).ok().map(|regex| Eraser { pattern: pattern.to_string(), regex })
    }

    /// Relies on `regex::Regex::replace_all` with an empty replacement: every
    /// non-overlapping match of the compiled pattern, leftmost first, is removed. For the
    /// field-code pattern a match is `%` and one field-code letter; two matches never
    /// overlap, since a letter is not `%`.
    #[verifier::external_body]
    pub(crate) fn erase(&self, text: &str) -> (r: String)
        ensures
            self.pattern() == field_code_pattern() ==> r@ == strip_field_codes(text@),
    {
        self.regex.replace_all(text, "").into_owned()
    }
}


/// An `Exec` template with every field code removed.
pub open spec fn normalized(template: Seq<char>) -> Seq<char> {
    strip_field_codes(template)
}

/// Removes every field code (`%f`, `%U`, ...) from an `Exec` template, leaving the rest,
/// spaces included, as it was.
pub fn normalize_exec(template: &str) -> (r: String)
    ensures
        r@ == normalized(template@),
{
    let eraser = Eraser::compile(FIELD_CODE_PATTERN).unwrap();
    eraser.erase(template)
}

/// A launchable item: what the list shows and what runs when it is chosen.
pub struct Entry {
    pub label: String,
    pub command_line: String,
}

pub struct EntryView {
    pub label: Seq<char>,
    pub command_line: Seq<char>,
}

impl View for Entry {
    type V = EntryView;

    open spec fn view(&self) -> EntryView {
        EntryView { label: self.label@, command_line: self.command_line@ }
    }
}

impl Entry {
    pub fn new(label: String, command_line: String) -> (r: Entry)
        ensures
            r.label == label,
            r.command_line == command_line,
    {
        Entry { label, command_line }
    }
}

/// The views of a sequence of entries.
pub open spec fn entry_views(v: Seq<Entry>) -> Seq<EntryView> {
    v.map_values(|e: Entry| e@)
}

/// The labels of a sequence of entries.
pub open spec fn labels_of(es: Seq<EntryView>) -> Seq<Seq<char>> {
    es.map_values(|e: EntryView| e.label)
}

/// No two entries share a label.
pub open spec fn labels_unique(es: Seq<EntryView>) -> bool {
    forall|i: int, j: int| 0 <= i < es.len() && 0 <= j < es.len() && i != j ==> es[i].label
        != es[j].label
}

/// Some entry has label `l`.
pub open spec fn has_label(es: Seq<EntryView>, l: Seq<char>) -> bool {
    exists|i: int| 0 <= i < es.len() && es[i].label == l
}

/// `e` replaces the entry with its label, or is appended when there is none.
pub open spec fn upsert(es: Seq<EntryView>, e: EntryView) -> Seq<EntryView> {
    if has_label(es, e.label) {
        es.map_values(|x: EntryView| if x.label == e.label { e } else { x })
    } else {
        es.push(e)
    }
}

/// One desktop-entry record as read from a source directory.
pub struct DesktopRecord {
    /// The application id (the file's stem).
    pub app_id: String,
    /// The display name, if the entry has one.
    pub name: Option<String>,
    /// The `Exec` template, if the entry has one.
    pub exec_template: Option<String>,
}

impl DesktopRecord {
    pub fn new(app_id: String, name: Option<String>, exec_template: Option<String>) -> (r: DesktopRecord)
        ensures
            r.app_id == app_id,
            r.name == name,
            r.exec_template == exec_template,
    {
        DesktopRecord { app_id, name, exec_template }
    }
}

/// The label of a record: its display name, else its application id.
pub open spec fn record_label(r: DesktopRecord) -> Seq<char> {
    match r.name {
        Some(n) => n@,
        None => r.app_id@,
    }
}

/// The catalog after reading record `r`: records without an `Exec` template are skipped.
pub open spec fn add_record(es: Seq<EntryView>, r: DesktopRecord) -> Seq<EntryView> {
    match r.exec_template {
        Some(x) => upsert(es, EntryView { label: record_label(r), command_line: normalized(x@) }),
        None => es,
    }
}

/// The catalog after reading the records `rs` in order.
pub open spec fn add_records(es: Seq<EntryView>, rs: Seq<DesktopRecord>) -> Seq<EntryView>
    decreases rs.len(),
{
    if rs.len() == 0 {
        es
    } else {
        add_record(add_records(es, rs.drop_last()), rs.last())
    }
}

/// The catalog built from sources listed from lowest to highest priority.
pub open spec fn catalog_of(sources: Seq<Seq<DesktopRecord>>) -> Seq<EntryView>
    decreases sources.len(),
{
    if sources.len() == 0 {
        Seq::empty()
    } else {
        add_records(catalog_of(sources.drop_last()), sources.last())
    }
}

/// The record sequences of a list of sources.
pub open spec fn source_views(sources: Seq<Vec<DesktopRecord>>) -> Seq<Seq<DesktopRecord>> {
    sources.map_values(|s: Vec<DesktopRecord>| s@)
}

/// Entries with unique labels.
pub struct EntryCatalog {
    entries: Vec<Entry>,
}

impl View for EntryCatalog {
    type V = Seq<EntryView>;

    closed spec fn view(&self) -> Seq<EntryView> {
        entry_views(self.entries@)
    }
}

impl EntryCatalog {
    pub open spec fn wf(&self) -> bool {
        labels_unique(self@)
    }

    pub fn new() -> (r: Self)
        ensures
            r.wf(),
            r@ == Seq::<EntryView>::empty(),
    {
        let r = EntryCatalog { entries: Vec::new() };
        assert(r@ =~= Seq::<EntryView>::empty());
        r
    }

    pub fn len(&self) -> (r: usize)
        ensures
            r == self@.len(),
    {
        self.entries.len()
    }

    /// The entries, in catalog order.
    pub fn entries(&self) -> (r: &Vec<Entry>)
        ensures
            entry_views(r@) == self@,
    {
        &self.entries
    }

    /// Hands over the entries, in catalog order.
    pub fn into_entries(self) -> (r: Vec<Entry>)
        ensures
            entry_views(r@) == self@,
    {
        self.entries
    }

    /// Adds an entry, replacing the one with the same label if there is one.
    pub fn insert(&mut self, label: String, command_line: String)
        requires
            old(self).wf(),
        ensures
            final(self).wf(),
            final(self)@ == upsert(old(self)@, (EntryView { label: label@, command_line: command_line@ })),
    {
        let ghost e = EntryView { label: label@, command_line: command_line@ };
        let ghost es = self@;
        let mut i: usize = 0;
        while i < self.entries.len()
            invariant
                i <= self.entries.len(),
                self@ == es,
                es == old(self)@,
                labels_unique(es),
                e == (EntryView { label: label@, command_line: command_line@ }),
                forall|k: int| 0 <= k < i ==> es[k].label != label@,
            decreases self.entries.len() - i,
        {
            if self.entries[i].label == label {
                assert(es[i as int].label == label@);
                assert(has_label(es, e.label));
                self.entries[i] = Entry { label, command_line };
                assert(self@ =~= upsert(es, e)) by {
                    assert forall|k: int| 0 <= k < es.len() implies #[trigger] self@[k] == upsert(
                        es,
                        e,
                    )[k] by {
                        if k != i {
                            assert(es[k].label != es[i as int].label);
                        }
                    }
                }
                return;
            }
            i += 1;
        }
        assert(!has_label(es, e.label));
        self.entries.push(Entry { label, command_line });
        assert(self@ =~= es.push(e));
    }

    /// Reads one record: a record with an `Exec` template becomes an entry labelled by its
    /// display name (else its application id), whose command line is the template with its
    /// field codes erased.
    fn add_desktop_record(&mut self, eraser: &Eraser, record: &DesktopRecord)
        requires
            old(self).wf(),
            eraser.pattern() == field_code_pattern(),
        ensures
            final(self).wf(),
            final(self)@ == add_record(old(self)@, *record),
    {
        match &record.exec_template {
            Some(x) => {
                let command_line = eraser.erase(x.as_str());
                let label = match &record.name {
                    Some(n) => n.clone(),
                    None => record.app_id.clone(),
                };
                self.insert(label, command_line);
            },
            None => {},
        }
    }

    /// Builds the catalog from sources listed from lowest to highest priority: when two
    /// records give the same label, the one read later wins.
    pub fn build(sources: &Vec<Vec<DesktopRecord>>) -> (r: EntryCatalog)
        ensures
            r.wf(),
            r@ == catalog_of(source_views(sources@)),
    {
        let eraser = Eraser::compile(FIELD_CODE_PATTERN).unwrap();
        let ghost sv = source_views(sources@);
        let mut catalog = EntryCatalog::new();
        let mut i: usize = 0;
        while i < sources.len()
            invariant
                i <= sources.len(),
                sv == source_views(sources@),
                eraser.pattern() == field_code_pattern(),
                catalog.wf(),
                catalog@ == catalog_of(sv.take(i as int)),
            decreases sources.len() - i,
        {
            let records = &sources[i];
            assert(sv[i as int] == records@);
            let ghost base = catalog@;
            let mut j: usize = 0;
            while j < records.len()
                invariant
                    j <= records.len(),
                    records@ == sv[i as int],
                    eraser.pattern() == field_code_pattern(),
                    catalog.wf(),
                    catalog@ == add_records(base, records@.take(j as int)),
                decreases records.len() - j,
            {
                assert(records@.take(j + 1).drop_last() == records@.take(j as int));
                catalog.add_desktop_record(&eraser, &records[j]);
                j += 1;
            }
            assert(records@.take(j as int) == records@);
            assert(sv.take(i + 1).drop_last() == sv.take(i as int));
            i += 1;
        }
        assert(sv.take(i as int) == sv);
        catalog
    }
}

} // verus!

verus! {

/// `e` is in `es`, and no other entry of `es` has its label.
pub open spec fn sole_entry(es: Seq<EntryView>, e: EntryView) -> bool {
    exists|i: int|
        0 <= i < es.len() && es[i] == e && (forall|j: int|
            0 <= j < es.len() && #[trigger] es[j].label == e.label ==> j == i)
}

/// The entry that record `r` yields, when it has an `Exec` template.
pub open spec fn record_entry(r: DesktopRecord) -> EntryView {
    EntryView { label: record_label(r), command_line: normalized(r.exec_template->Some_0@) }
}

proof fn lemma_upsert_unique(es: Seq<EntryView>, e: EntryView)
    requires
        labels_unique(es),
    ensures
        labels_unique(upsert(es, e)),
        sole_entry(upsert(es, e), e),
{
    let u = upsert(es, e);
    if has_label(es, e.label) {
        let i = choose|i: int| 0 <= i < es.len() && es[i].label == e.label;
        assert(u[i] == e);
        assert forall|j: int| 0 <= j < u.len() && #[trigger] u[j].label == e.label implies j
            == i by {
            if es[j].label != e.label {
            }
        }
    } else {
        assert(u[es.len() as int] == e);
    }
}

proof fn lemma_upsert_keeps(es: Seq<EntryView>, e: EntryView, f: EntryView)
    requires
        labels_unique(es),
        sole_entry(es, f),
        e.label != f.label,
    ensures
        sole_entry(upsert(es, e), f),
{
    let u = upsert(es, e);
    let i = choose|i: int|
        0 <= i < es.len() && es[i] == f && (forall|j: int|
            0 <= j < es.len() && #[trigger] es[j].label == f.label ==> j == i);
    assert(u[i] == f);
    if !has_label(es, e.label) {
        assert forall|j: int| 0 <= j < u.len() && #[trigger] u[j].label == f.label implies j
            == i by {
            if j < es.len() {
                assert(es[j].label == f.label);
            }
        }
    } else {
        assert forall|j: int| 0 <= j < u.len() && #[trigger] u[j].label == f.label implies j
            == i by {
            assert(es[j].label == f.label);
        }
    }
}

proof fn lemma_add_records_unique(es: Seq<EntryView>, rs: Seq<DesktopRecord>)
    requires
        labels_unique(es),
    ensures
        labels_unique(add_records(es, rs)),
    decreases rs.len(),
{
    if rs.len() > 0 {
        lemma_add_records_unique(es, rs.drop_last());
        let r = rs.last();
        if r.exec_template is Some {
            lemma_upsert_unique(add_records(es, rs.drop_last()), record_entry(r));
        }
    }
}

proof fn lemma_last_definition_wins(es: Seq<EntryView>, rs: Seq<DesktopRecord>, k: int)
    requires
        labels_unique(es),
        0 <= k < rs.len(),
        rs[k].exec_template is Some,
        forall|j: int|
            k < j < rs.len() && (#[trigger] rs[j]).exec_template is Some ==> record_label(rs[j])
                != record_label(rs[k]),
    ensures
        sole_entry(add_records(es, rs), record_entry(rs[k])),
    decreases rs.len(),
{
    let prev = rs.drop_last();
    lemma_add_records_unique(es, prev);
    if k == rs.len() - 1 {
        lemma_upsert_unique(add_records(es, prev), record_entry(rs[k]));
    } else {
        assert forall|j: int|
            k < j < prev.len() && (#[trigger] prev[j]).exec_template is Some implies record_label(
            prev[j],
        ) != record_label(prev[k]) by {
            assert(prev[j] == rs[j]);
        }
        lemma_last_definition_wins(es, prev, k);
        let r = rs.last();
        if r.exec_template is Some {
            assert(rs[rs.len() - 1] == r);
            lemma_upsert_keeps(add_records(es, prev), record_entry(r), record_entry(rs[k]));
        }
    }
}

/// Of two sources, the later (higher-priority) one overrides the earlier: when its record
/// `b[k]` is the last in `b` to give a label, the catalog holds exactly one entry with that
/// label, and its command line is the one `b[k]` gives, whatever `a` held.
pub proof fn lemma_later_source_wins(a: Seq<DesktopRecord>, b: Seq<DesktopRecord>, k: int)
    requires
        0 <= k < b.len(),
        b[k].exec_template is Some,
        forall|j: int|
            k < j < b.len() && (#[trigger] b[j]).exec_template is Some ==> record_label(b[j])
                != record_label(b[k]),
    ensures
        sole_entry(catalog_of(seq![a, b]), record_entry(b[k])),
{
    let ss = seq![a, b];
    assert(ss.drop_last() == seq![a]);
    assert(seq![a].drop_last() == Seq::<Seq<DesktopRecord>>::empty());
    assert(seq![a].last() == a);
    assert(catalog_of(Seq::<Seq<DesktopRecord>>::empty()) == Seq::<EntryView>::empty());
    let first = catalog_of(seq![a]);
    assert(first == add_records(Seq::empty(), a));
    lemma_add_records_unique(Seq::empty(), a);
    lemma_last_definition_wins(first, b, k);
}

} // verus!
