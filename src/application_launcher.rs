//! The launcher: the search bar and the selection list, driven by one event stream.
use vstd::prelude::*;

use crate::catalog::EntryCatalog;
use crate::input::InputEvent;
use crate::widgets::search::{search_consistent, search_step, Search, SearchView};
use crate::widgets::select::{
    select_action, select_consistent, select_step, with_filter, Select, SelectView,
};

verus! {

/// The search bar and the selection list it filters.
pub struct ApplicationLauncher {
    search: Search,
    select: Select,
}

/// The state of a launcher.
pub struct LauncherView {
    pub search: SearchView,
    pub select: SelectView,
}

impl View for ApplicationLauncher {
    type V = LauncherView;

    closed spec fn view(&self) -> LauncherView {
        LauncherView { search: self.search@, select: self.select@ }
    }
}

/// The filter that a search bar asks for: its text, or no filter while it is empty.
pub open spec fn buffer_filter(s: SearchView) -> Option<Seq<char>> {
    if s.buffer.len() > 0 {
        Some(s.buffer)
    } else {
        None
    }
}

/// How one event changes the launcher: the search bar reads it first, then the list,
/// then the list takes the search bar's new text as its filter.
pub open spec fn launcher_step(v: LauncherView, ev: InputEvent) -> LauncherView {
    let search = search_step(v.search, ev);
    LauncherView { search, select: with_filter(select_step(v.select, ev), buffer_filter(search)) }
}

/// The command line that one event asks to launch.
pub open spec fn launcher_action(v: LauncherView, ev: InputEvent) -> Option<Seq<char>> {
    match select_action(v.select, ev) {
        Some(i) => Some(v.select.entries[i as int].command_line),
        None => None,
    }
}

impl ApplicationLauncher {
    pub open spec fn wf(&self) -> bool {
        &&& search_consistent(self@.search)
        &&& select_consistent(self@.select)
        &&& self@.select.filter == buffer_filter(self@.search)
    }

    /// A launcher over the catalog's entries, with an empty search bar and nothing filtered.
    pub fn new(catalog: EntryCatalog) -> (r: Self)
        ensures
            r.wf(),
            r@.search.buffer.len() == 0,
            !r@.search.ctrl,
            r@.select.entries == catalog@,
            r@.select.filter is None,
            r@.select.selected == 0,
            !r@.select.ctrl,
    {
        let entries = catalog.into_entries();
        ApplicationLauncher { search: Search::new(), select: Select::new(entries) }
    }

    pub fn search(&self) -> (r: &Search)
        ensures
            r@ == self@.search,
            self.wf() ==> r.wf(),
    {
        &self.search
    }

    pub fn select(&self) -> (r: &Select)
        ensures
            r@ == self@.select,
            self.wf() ==> r.wf(),
    {
        &self.select
    }

    /// Applies one input event; returns the command line of the entry that it activates.
    pub fn handle_event(&mut self, ev: &InputEvent) -> (r: Option<String>)
        requires
            old(self).wf(),
        ensures
            final(self).wf(),
            final(self)@ == launcher_step(old(self)@, *ev),
            r is Some <==> launcher_action(old(self)@, *ev) is Some,
            r matches Some(c) ==> launcher_action(old(self)@, *ev) == Some(c@),
    {
        self.search.handle_event(ev);
        let chosen = self.select.handle_event(ev);
        let launch = match chosen {
            Some(i) => Some(self.select.entries()[i].command_line.clone()),
            None => None,
        };
        let text = self.search.buffer();
        if !text.is_empty() {
            let filter = text.to_owned();
            self.select.update_entry_filter(Some(filter));
        } else {
            self.select.update_entry_filter(None);
        }
        launch
    }
}

} // verus!
