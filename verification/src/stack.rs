//! The stack of snapshots from the topmost pane down to the focused
//! directory, and the moves on it: entering a directory, leaving it, and
//! moving the selection.

use vstd::prelude::*;
use vstd::string::*;
use std::collections::VecDeque;
use crate::config::Config;
use crate::directory::{
    clamped_row, lemma_windowed_shows_selection, snapshot_of, stack_view, Directory, DirectoryView,
};
use crate::entry::{
    dirs_first, lemma_dirs_first, lemma_dirs_first_keeps_names, lemma_synced_index_in_range,
    listing_view, synced_index, Entry, EntryView,
};
use crate::text::{join, joined, texts_of};
use crate::window::selection_visible;

verus! {

/// Why a move on the stack did not happen.
#[derive(Clone, Copy, Debug, PartialEq, Eq, Structural)]
pub enum NavError {
    /// The selected entry of the focused directory is no directory.
    NotADirectory,
    /// The directory that the move needs could not be listed.
    ReadError,
}

/// One directory as the filesystem reports it: its name and its children in
/// the order of enumeration.
#[derive(Debug)]
pub struct Level {
    pub name: String,
    pub entries: Vec<Entry>,
}

/// What a [`Level`] stands for.
pub struct LevelView {
    pub name: Seq<char>,
    pub entries: Seq<EntryView>,
}

impl View for Level {
    type V = LevelView;

    open spec fn view(&self) -> LevelView {
        LevelView { name: self.name@, entries: listing_view(self.entries@) }
    }
}

/// What a sequence of levels stands for.
pub open spec fn levels_view(levels: Seq<Level>) -> Seq<LevelView> {
    levels.map_values(|l: Level| l@)
}

/// The panes of the browser, the last one focused, and the names of the
/// directories above the first pane.
#[derive(Debug)]
pub struct DirectoryStack {
    /// The names of the directories above the first pane, topmost first. They
    /// are not shown; their listings are read again when they are needed.
    pub ancestors: Vec<String>,
    /// The snapshots that are shown, topmost first; the last one is the
    /// focused directory.
    pub panes: VecDeque<Directory>,
}

/// What a [`DirectoryStack`] stands for.
pub struct StackView {
    pub ancestors: Seq<Seq<char>>,
    pub panes: Seq<DirectoryView>,
}

impl View for DirectoryStack {
    type V = StackView;

    open spec fn view(&self) -> StackView {
        StackView { ancestors: texts_of(self.ancestors@), panes: stack_view(self.panes@) }
    }
}

/// The selection of `parent` follows `child`: it is on the first entry that
/// carries the child's name, and on the top row where no entry does.
pub open spec fn follows(parent: DirectoryView, child: DirectoryView) -> bool {
    parent.selected == synced_index(parent.entries, child.name)
}

impl StackView {
    /// The focused directory: the last pane.
    pub open spec fn focused(self) -> DirectoryView {
        self.panes.last()
    }

    /// The names of all directories from the topmost one to the focused one.
    pub open spec fn names(self) -> Seq<Seq<char>> {
        self.ancestors + self.panes.map_values(|d: DirectoryView| d.name)
    }

    /// Every pane but the last has its selection on the pane to its right.
    pub open spec fn synced(self) -> bool {
        forall|i: int| 0 <= i < self.panes.len() - 1 ==> follows(#[trigger] self.panes[i], self.panes[i + 1])
    }

    /// The stack keeps its rules under `config`: it has a focused pane and no
    /// more panes than the configured depth, every pane keeps the rules of a
    /// snapshot and has the window of the scroll policy, and every pane but
    /// the last has its selection on the pane to its right.
    pub open spec fn wf(self, config: Config) -> bool {
        &&& 1 <= self.panes.len() <= config.max_directory_depth
        &&& forall|i: int|
            0 <= i < self.panes.len() ==> (#[trigger] self.panes[i]).wf() && self.panes[i].windowed(
                config.n_rows as int,
            )
        &&& self.synced()
    }

    /// The selected entry of the focused directory is a directory, so it can
    /// be entered.
    pub open spec fn can_descend(self) -> bool {
        &&& self.panes.len() > 0
        &&& 0 <= self.focused().selected < self.focused().entries.len()
        &&& self.focused().entries[self.focused().selected].is_dir
    }

    /// Leaving the focused directory needs the listing of the directory above
    /// it read again: the focused pane is the only one, and directories above
    /// it are known by name.
    pub open spec fn needs_ancestor(self) -> bool {
        self.panes.len() == 1 && self.ancestors.len() > 0
    }

    /// The stack without its first pane when it holds more panes than
    /// `config` allows; the name of that pane joins the ancestors.
    pub open spec fn capped(self, config: Config) -> StackView {
        if self.panes.len() > config.max_directory_depth && self.panes.len() > 0 {
            StackView { ancestors: self.ancestors.push(self.panes[0].name), panes: self.panes.skip(1) }
        } else {
            self
        }
    }

    /// The stack with the selection of its last pane put on `name`.
    pub open spec fn pointing_at(self, name: Seq<char>, config: Config) -> StackView {
        StackView {
            panes: self.panes.update(
                self.panes.len() - 1,
                self.focused().with_selected(synced_index(self.focused().entries, name)).rewindowed(
                    config.n_rows as int,
                ),
            ),
            ..self
        }
    }

    /// The stack after the directory `target` with the given listing was
    /// entered: the focused pane points at `target`, a fresh snapshot of
    /// `target` with its selection on the top row is the new last pane, and
    /// the first pane is dropped where the depth is exceeded.
    pub open spec fn descended(self, target: Seq<char>, listing: Seq<EntryView>, config: Config) -> StackView {
        let pointing = self.pointing_at(target, config);
        StackView {
            panes: pointing.panes.push(snapshot_of(target, listing, None, config.n_rows as int)),
            ..pointing
        }.capped(config)
    }

    /// The stack after the focused directory was left while another pane
    /// stood to its left: the last pane is gone and the new last pane points
    /// at the name of the pane that went.
    pub open spec fn popped(self, config: Config) -> StackView {
        StackView { panes: self.panes.drop_last(), ..self }.pointing_at(self.focused().name, config)
    }

    /// The stack after the focused directory was left while it was the only
    /// pane: the directory above it, read again as `listing`, takes its
    /// place and points at the name of the pane that went.
    pub open spec fn replaced_by_ancestor(self, listing: Seq<EntryView>, config: Config) -> StackView {
        StackView {
            ancestors: self.ancestors.drop_last(),
            panes: seq![
                snapshot_of(self.ancestors.last(), listing, Some(self.focused().name), config.n_rows as int),
            ],
        }
    }

    /// The stack after the focused directory was left. `reread` is the fresh
    /// listing of the directory above the first pane, where it could be
    /// read. At the topmost directory, and where a listing is needed and
    /// missing, the stack stays as it is.
    pub open spec fn ascended(self, reread: Option<Seq<EntryView>>, config: Config) -> StackView {
        if self.panes.len() >= 2 {
            self.popped(config)
        } else if self.needs_ancestor() && reread is Some {
            self.replaced_by_ancestor(reread->0, config)
        } else {
            self
        }
    }

    /// The stack after the selection of the focused pane moved by `delta`
    /// rows, stopping at the first and at the last row.
    pub open spec fn moved(self, delta: int, config: Config) -> StackView {
        if self.panes.len() == 0 {
            self
        } else {
            StackView {
                panes: self.panes.update(
                    self.panes.len() - 1,
                    self.focused().with_selected(
                        clamped_row(self.focused().selected, delta, self.focused().entries.len() as int),
                    ).rewindowed(config.n_rows as int),
                ),
                ..self
            }
        }
    }
}

/// A fresh snapshot keeps the rules of a snapshot and has the window of the
/// scroll policy.
pub proof fn lemma_snapshot_wf(
    name: Seq<char>,
    listing: Seq<EntryView>,
    hint: Option<Seq<char>>,
    visible_rows: int,
)
    requires
        visible_rows >= 0,
    ensures
        snapshot_of(name, listing, hint, visible_rows).wf(),
        snapshot_of(name, listing, hint, visible_rows).windowed(visible_rows),
{
    lemma_dirs_first(listing);
    lemma_dirs_first_keeps_names(listing);
    if hint is Some {
        lemma_synced_index_in_range(dirs_first(listing), hint->0);
    }
}

/// A snapshot whose selection is put on a name and whose window follows
/// still keeps the rules of a snapshot.
pub proof fn lemma_pointing_wf(dir: DirectoryView, name: Seq<char>, visible_rows: int)
    requires
        dir.wf(),
        visible_rows >= 0,
    ensures
        dir.with_selected(synced_index(dir.entries, name)).rewindowed(visible_rows).wf(),
        dir.with_selected(synced_index(dir.entries, name)).rewindowed(visible_rows).windowed(visible_rows),
{
    lemma_synced_index_in_range(dir.entries, name);
}

/// In a stack that keeps its rules every pane shows its selected row, as
/// long as one row fits on screen: nothing has to be scrolled before a frame
/// is drawn.
pub proof fn lemma_stack_shows_selections(stack: StackView, config: Config, index: int)
    requires
        stack.wf(config),
        config.n_rows > 0,
        0 <= index < stack.panes.len(),
    ensures
        selection_visible(stack.panes[index].window_start, stack.panes[index].selected, config.n_rows as int),
{
    lemma_windowed_shows_selection(stack.panes[index], config.n_rows as int);
}

/// Entering a directory keeps the rules of the stack.
pub proof fn lemma_descended_wf(stack: StackView, target: Seq<char>, listing: Seq<EntryView>, config: Config)
    requires
        stack.wf(config),
    ensures
        stack.descended(target, listing, config).wf(config),
{
    let rows = config.n_rows as int;
    let last = stack.panes.len() - 1;
    let pointing = stack.pointing_at(target, config);
    let child = snapshot_of(target, listing, None, rows);
    let grown = StackView { panes: pointing.panes.push(child), ..pointing };
    lemma_pointing_wf(stack.focused(), target, rows);
    lemma_snapshot_wf(target, listing, None, rows);
    assert forall|i: int| 0 <= i < grown.panes.len() implies (#[trigger] grown.panes[i]).wf()
        && grown.panes[i].windowed(rows) by {
        if i < last {
            assert(grown.panes[i] == stack.panes[i]);
        }
    }
    assert forall|i: int| 0 <= i < grown.panes.len() - 1 implies follows(
        #[trigger] grown.panes[i],
        grown.panes[i + 1],
    ) by {
        if i < last {
            assert(follows(stack.panes[i], stack.panes[i + 1]));
        }
    }
    let after = grown.capped(config);
    if grown.panes.len() > config.max_directory_depth {
        assert forall|i: int| 0 <= i < after.panes.len() implies (#[trigger] after.panes[i]).wf()
            && after.panes[i].windowed(rows) by {
            assert(after.panes[i] == grown.panes[i + 1]);
        }
        assert forall|i: int| 0 <= i < after.panes.len() - 1 implies follows(
            #[trigger] after.panes[i],
            after.panes[i + 1],
        ) by {
            assert(follows(grown.panes[i + 1], grown.panes[i + 2]));
        }
    }
}

/// Leaving the focused directory keeps the rules of the stack.
pub proof fn lemma_ascended_wf(stack: StackView, reread: Option<Seq<EntryView>>, config: Config)
    requires
        stack.wf(config),
    ensures
        stack.ascended(reread, config).wf(config),
{
    let rows = config.n_rows as int;
    let after = stack.ascended(reread, config);
    if stack.panes.len() >= 2 {
        let rest = stack.panes.drop_last();
        let last = rest.len() - 1;
        assert(rest[last] == stack.panes[last]);
        lemma_pointing_wf(rest.last(), stack.focused().name, rows);
        assert forall|i: int| 0 <= i < after.panes.len() implies (#[trigger] after.panes[i]).wf()
            && after.panes[i].windowed(rows) by {
            if i < last {
                assert(after.panes[i] == stack.panes[i]);
            }
        }
        assert forall|i: int| 0 <= i < after.panes.len() - 1 implies follows(
            #[trigger] after.panes[i],
            after.panes[i + 1],
        ) by {
            assert(follows(stack.panes[i], stack.panes[i + 1]));
        }
    } else if stack.needs_ancestor() && reread is Some {
        lemma_snapshot_wf(stack.ancestors.last(), reread->0, Some(stack.focused().name), rows);
    }
}

/// Moving the selection keeps the rules of the stack.
pub proof fn lemma_moved_wf(stack: StackView, delta: int, config: Config)
    requires
        stack.wf(config),
    ensures
        stack.moved(delta, config).wf(config),
{
    let rows = config.n_rows as int;
    let after = stack.moved(delta, config);
    let last = stack.panes.len() - 1;
    assert forall|i: int| 0 <= i < after.panes.len() implies (#[trigger] after.panes[i]).wf()
        && after.panes[i].windowed(rows) by {
        if i < last {
            assert(after.panes[i] == stack.panes[i]);
        } else {
            assert(stack.panes[last].wf());
        }
    }
    assert forall|i: int| 0 <= i < after.panes.len() - 1 implies follows(
        #[trigger] after.panes[i],
        after.panes[i + 1],
    ) by {
        assert(follows(stack.panes[i], stack.panes[i + 1]));
    }
}

/// The listing that an optional vector of entries stands for.
pub open spec fn reread_view(reread: Option<Vec<Entry>>) -> Option<Seq<EntryView>> {
    match reread {
        Some(entries) => Some(listing_view(entries@)),
        None => None,
    }
}

proof fn lemma_stack_view_push(panes: Seq<Directory>, pane: Directory)
    ensures
        stack_view(panes.push(pane)) == stack_view(panes).push(pane@),
{
    assert(stack_view(panes.push(pane)) =~= stack_view(panes).push(pane@));
}

proof fn lemma_stack_view_subrange(panes: Seq<Directory>, from: int, to: int)
    requires
        0 <= from <= to <= panes.len(),
    ensures
        stack_view(panes.subrange(from, to)) == stack_view(panes).subrange(from, to),
{
    assert(stack_view(panes.subrange(from, to)) =~= stack_view(panes).subrange(from, to));
}

proof fn lemma_texts_push(parts: Seq<String>, part: String)
    ensures
        texts_of(parts.push(part)) == texts_of(parts).push(part@),
{
    assert(texts_of(parts.push(part)) =~= texts_of(parts).push(part@));
}

impl DirectoryStack {
    /// The stack keeps its rules under `config`; see [`StackView::wf`].
    pub open spec fn wf(&self, config: Config) -> bool {
        self@.wf(config)
    }

    /// Tells whether the selected entry of the focused directory is a
    /// directory.
    pub fn can_descend(&self) -> (possible: bool)
        ensures
            possible == self@.can_descend(),
    {
        let count = self.panes.len();
        if count == 0 {
            return false;
        }
        let focused = &self.panes[count - 1];
        assert(focused@ == self@.focused());
        if focused.selected_idx < focused.contents.len() {
            focused.contents[focused.selected_idx].is_dir
        } else {
            false
        }
    }

    /// The name of the directory that a move to the right enters: that of the
    /// selected entry of the focused directory, where it is a directory.
    pub fn descend_target(&self) -> (target: Option<String>)
        ensures
            target is Some == self@.can_descend(),
            target matches Some(name) ==> name@ == self@.focused().entries[self@.focused().selected].name,
    {
        if self.can_descend() {
            let focused = &self.panes[self.panes.len() - 1];
            assert(focused@ == self@.focused());
            Some(focused.contents[focused.selected_idx].name.clone())
        } else {
            None
        }
    }

    /// Tells whether leaving the focused directory needs the directory above
    /// it listed again.
    pub fn needs_ancestor(&self) -> (needed: bool)
        ensures
            needed == self@.needs_ancestor(),
    {
        self.panes.len() == 1 && self.ancestors.len() > 0
    }

    /// Moves the selection of the focused pane by `delta` rows, stopping at
    /// the first and at the last row, and scrolls to it. No other pane
    /// changes.
    pub fn move_selection(&mut self, delta: isize, config: &Config)
        ensures
            final(self)@ == old(self)@.moved(delta as int, *config),
            old(self).wf(*config) ==> final(self).wf(*config),
    {
        let ghost before = self.panes@;
        match self.panes.pop_back() {
            Some(focused) => {
                let mut focused = focused;
                focused.move_selection(delta, config.n_rows);
                proof {
                    lemma_stack_view_subrange(before, 0, before.len() - 1);
                    lemma_stack_view_push(self.panes@, focused);
                    assert(stack_view(before).subrange(0, before.len() - 1).push(focused@) =~= old(
                        self,
                    )@.moved(delta as int, *config).panes);
                }
                self.panes.push_back(focused);
            },
            None => {},
        }
        proof {
            if old(self).wf(*config) {
                lemma_moved_wf(old(self)@, delta as int, *config);
            }
        }
    }
}

/// Enters the directory `target_name`, a child of the focused directory,
/// whose listing the caller has read: `listing` is `None` where the read
/// failed.
///
/// Where the selected entry of the focused directory is no directory this
/// fails with `NotADirectory`; where it is and the listing is missing, with
/// `ReadError`. Either way the stack stays as it was. Otherwise the focused
/// pane points at `target_name`, a fresh snapshot of the child with its
/// selection on the top row becomes the focused pane, and the first pane is
/// dropped where the depth is exceeded.
pub fn enter_directory(
    stack: &mut DirectoryStack,
    target_name: String,
    listing: Option<Vec<Entry>>,
    config: &Config,
) -> (outcome: Result<(), NavError>)
    ensures
        outcome == Err::<(), NavError>(NavError::NotADirectory) <==> !old(stack)@.can_descend(),
        outcome == Err::<(), NavError>(NavError::ReadError) <==> old(stack)@.can_descend() && listing is None,
        outcome is Err ==> final(stack)@ == old(stack)@,
        outcome is Ok ==> final(stack)@ == old(stack)@.descended(
            target_name@,
            listing_view(listing->0@),
            *config,
        ),
        old(stack).wf(*config) ==> final(stack).wf(*config),
{
    if !stack.can_descend() {
        return Err(NavError::NotADirectory);
    }
    let entries = match listing {
        Some(entries) => entries,
        None => {
            return Err(NavError::ReadError);
        },
    };
    let ghost before = stack.panes@;
    let ghost wanted = old(stack)@.descended(target_name@, listing_view(entries@), *config);
    match stack.panes.pop_back() {
        Some(parent) => {
            let mut parent = parent;
            parent.select_named(&target_name, config.n_rows);
            let child = Directory::from_listing(target_name, &entries, None, config);
            proof {
                lemma_stack_view_subrange(before, 0, before.len() - 1);
                lemma_stack_view_push(stack.panes@, parent);
                lemma_stack_view_push(stack.panes@.push(parent), child);
            }
            stack.panes.push_back(parent);
            stack.panes.push_back(child);
        },
        None => {},
    }
    let ghost grown = stack@;
    assert(grown.panes =~= old(stack)@.pointing_at(target_name@, *config).panes.push(
        snapshot_of(target_name@, listing_view(entries@), None, config.n_rows as int),
    ));
    assert(grown.ancestors == old(stack)@.ancestors);
    if stack.panes.len() > config.max_directory_depth {
        let ghost full = stack.panes@;
        match stack.panes.pop_front() {
            Some(front) => {
                proof {
                    lemma_stack_view_subrange(full, 1, full.len() as int);
                    lemma_texts_push(stack.ancestors@, front.name);
                    assert(front@ == grown.panes[0]);
                }
                stack.ancestors.push(front.name);
            },
            None => {},
        }
    }
    proof {
        assert(stack@.panes =~= wanted.panes);
        assert(stack@.ancestors =~= wanted.ancestors);
        if old(stack).wf(*config) {
            lemma_descended_wf(old(stack)@, target_name@, listing_view(entries@), *config);
        }
    }
    Ok(())
}

/// Leaves the focused directory. `reread` is the fresh listing of the
/// directory above the first pane, which the caller reads where
/// [`DirectoryStack::needs_ancestor`] asks for it; it is `None` where the
/// read failed or was not needed.
///
/// With a pane to the left of the focused one, the focused pane goes and the
/// pane to its left points at the name of the pane that went. With one pane
/// only and directories above it, the directory above takes the place of the
/// pane and points at its name; this fails with `ReadError`, and changes
/// nothing, where the listing is missing. At the topmost directory nothing
/// happens.
pub fn exit_directory(stack: &mut DirectoryStack, reread: Option<Vec<Entry>>, config: &Config) -> (outcome:
    Result<(), NavError>)
    ensures
        outcome == Err::<(), NavError>(NavError::ReadError) <==> old(stack)@.needs_ancestor()
            && reread is None,
        outcome is Err ==> outcome == Err::<(), NavError>(NavError::ReadError),
        final(stack)@ == old(stack)@.ascended(reread_view(reread), *config),
        old(stack).wf(*config) ==> final(stack).wf(*config),
{
    proof {
        if old(stack).wf(*config) {
            lemma_ascended_wf(old(stack)@, reread_view(reread), *config);
        }
    }
    let count = stack.panes.len();
    let ghost before = stack.panes@;
    if count >= 2 {
        match stack.panes.pop_back() {
            Some(gone) => {
                let ghost rest = stack.panes@;
                match stack.panes.pop_back() {
                    Some(parent) => {
                        let mut parent = parent;
                        parent.select_named(&gone.name, config.n_rows);
                        proof {
                            lemma_stack_view_subrange(before, 0, before.len() - 1);
                            lemma_stack_view_subrange(rest, 0, rest.len() - 1);
                            lemma_stack_view_push(stack.panes@, parent);
                            assert(stack_view(stack.panes@.push(parent)) =~= old(stack)@.popped(
                                *config,
                            ).panes);
                        }
                        stack.panes.push_back(parent);
                    },
                    None => {},
                }
            },
            None => {},
        }
        Ok(())
    } else if stack.needs_ancestor() {
        match reread {
            Some(entries) => {
                match stack.panes.pop_back() {
                    Some(gone) => {
                        let ghost names = stack.ancestors@;
                        match stack.ancestors.pop() {
                            Some(name) => {
                                let above = Directory::from_listing(name, &entries, Some(&gone.name), config);
                                proof {
                                    assert(gone@ == old(stack)@.focused());
                                    assert(name@ == old(stack)@.ancestors.last());
                                    assert(texts_of(stack.ancestors@) =~= old(stack)@.ancestors.drop_last());
                                    lemma_stack_view_push(stack.panes@, above);
                                    assert(stack_view(stack.panes@.push(above)) =~= seq![above@]);
                                }
                                stack.panes.push_back(above);
                            },
                            None => {},
                        }
                    },
                    None => {},
                }
                Ok(())
            },
            None => Err(NavError::ReadError),
        }
    } else {
        Ok(())
    }
}

/// The stack that is first shown for a path. `levels` are the directories
/// of the path that were listed, topmost first and the focused one last; as
/// many of them as the depth allows, counted from the focused one, become
/// panes. The names of the others join `ancestors`. Every pane but the last
/// has its selection on the pane to its right; the focused pane has it on
/// the top row.
pub open spec fn populated(ancestors: Seq<Seq<char>>, levels: Seq<LevelView>, config: Config) -> StackView {
    let shown = if levels.len() <= config.max_directory_depth {
        levels.len() as int
    } else {
        config.max_directory_depth as int
    };
    let hidden = levels.len() - shown;
    StackView {
        ancestors: ancestors + Seq::new(hidden as nat, |i: int| levels[i].name),
        panes: Seq::new(
            shown as nat,
            |i: int|
                snapshot_of(
                    levels[hidden + i].name,
                    levels[hidden + i].entries,
                    if i + 1 < shown {
                        Some(levels[hidden + i + 1].name)
                    } else {
                        None
                    },
                    config.n_rows as int,
                ),
        ),
    }
}

/// The stack that is first shown keeps the rules of a stack, as long as
/// there is a directory to show and room for a pane.
pub proof fn lemma_populated_wf(ancestors: Seq<Seq<char>>, levels: Seq<LevelView>, config: Config)
    requires
        levels.len() >= 1,
        config.max_directory_depth >= 1,
    ensures
        populated(ancestors, levels, config).wf(config),
{
    let stack = populated(ancestors, levels, config);
    let rows = config.n_rows as int;
    let shown = stack.panes.len() as int;
    let hidden = levels.len() - shown;
    assert forall|i: int| 0 <= i < stack.panes.len() implies (#[trigger] stack.panes[i]).wf()
        && stack.panes[i].windowed(rows) by {
        lemma_snapshot_wf(
            levels[hidden + i].name,
            levels[hidden + i].entries,
            if i + 1 < shown {
                Some(levels[hidden + i + 1].name)
            } else {
                None
            },
            rows,
        );
    }
    assert forall|i: int| 0 <= i < stack.panes.len() - 1 implies follows(
        #[trigger] stack.panes[i],
        stack.panes[i + 1],
    ) by {
        assert(stack.panes[i + 1].name == levels[hidden + i + 1].name);
    }
}

/// Builds the stack that is first shown for a path from the listings that
/// the caller has read; see [`populated`]. There is no stack without a
/// directory to show or without room for a pane.
pub fn populate_display_dirs(ancestors: Vec<String>, levels: &Vec<Level>, config: &Config) -> (built: Option<
    DirectoryStack,
>)
    ensures
        built is Some <==> levels@.len() >= 1 && config.max_directory_depth >= 1,
        built matches Some(stack) ==> stack@ == populated(
            texts_of(ancestors@),
            levels_view(levels@),
            *config,
        ) && stack.wf(*config),
{
    let count = levels.len();
    if count == 0 || config.max_directory_depth == 0 {
        return None;
    }
    let ghost wanted = populated(texts_of(ancestors@), levels_view(levels@), *config);
    let shown = if count <= config.max_directory_depth {
        count
    } else {
        config.max_directory_depth
    };
    let hidden = count - shown;
    let mut names = ancestors;
    let mut at: usize = 0;
    assert(texts_of(names@) =~= wanted.ancestors.take(ancestors@.len() as int));
    while at < hidden
        invariant
            at <= hidden,
            hidden + shown == count,
            count == levels@.len(),
            names@.len() == ancestors@.len() + at,
            wanted == populated(texts_of(ancestors@), levels_view(levels@), *config),
            wanted.ancestors.len() == ancestors@.len() + hidden,
            texts_of(names@) == wanted.ancestors.take(ancestors@.len() + at),
        decreases hidden - at,
    {
        let name = levels[at].name.clone();
        proof {
            lemma_texts_push(names@, name);
            assert(levels_view(levels@)[at as int].name == name@);
            assert(wanted.ancestors.take(ancestors@.len() + at + 1) =~= wanted.ancestors.take(
                ancestors@.len() + at,
            ).push(name@));
        }
        names.push(name);
        at += 1;
    }
    assert(wanted.ancestors.take(ancestors@.len() + at) =~= wanted.ancestors);
    let mut panes: VecDeque<Directory> = VecDeque::new();
    assert(stack_view(panes@) =~= wanted.panes.take(0));
    while at < count
        invariant
            hidden <= at <= count,
            hidden + shown == count,
            count == levels@.len(),
            shown == if count <= config.max_directory_depth {
                count
            } else {
                config.max_directory_depth
            },
            wanted == populated(texts_of(ancestors@), levels_view(levels@), *config),
            stack_view(panes@) == wanted.panes.take(at - hidden),
        decreases count - at,
    {
        let level = &levels[at];
        let name = level.name.clone();
        let pane = if at + 1 < count {
            Directory::from_listing(name, &level.entries, Some(&levels[at + 1].name), config)
        } else {
            Directory::from_listing(name, &level.entries, None, config)
        };
        proof {
            let row = at - hidden;
            assert(levels_view(levels@)[at as int] == level@);
            if at + 1 < count {
                assert(levels_view(levels@)[at + 1].name == levels@[at + 1].name@);
            }
            assert(pane@ == wanted.panes[row]);
            lemma_stack_view_push(panes@, pane);
            assert(wanted.panes.take(row + 1) =~= wanted.panes.take(row).push(pane@));
        }
        panes.push_back(pane);
        at += 1;
    }
    assert(wanted.panes.take(at - hidden) =~= wanted.panes);
    proof {
        lemma_populated_wf(texts_of(ancestors@), levels_view(levels@), *config);
    }
    Some(DirectoryStack { ancestors: names, panes: panes })
}

/// Turns the components of a canonical path into the names that the browser
/// shows: the first component loses its four leading characters, the
/// verbatim prefix, and the component after it, the root separator, goes.
pub fn init_path_stack(components: Vec<String>) -> (p_stack: Vec<String>)
    requires
        components@.len() >= 2,
        components@[0]@.len() >= 4,
    ensures
        texts_of(p_stack@) == seq![components@[0]@.skip(4)] + texts_of(components@).skip(2),
{
    let ghost wanted = seq![components@[0]@.skip(4)] + texts_of(components@).skip(2);
    let first = components[0].as_str();
    let drive = String::from_str(first.substring_char(4, first.unicode_len()));
    let mut p_stack: Vec<String> = Vec::new();
    proof {
        lemma_texts_push(p_stack@, drive);
    }
    p_stack.push(drive);
    assert(texts_of(p_stack@) =~= wanted.take(1));
    let mut at: usize = 2;
    while at < components.len()
        invariant
            2 <= at <= components@.len(),
            wanted == seq![components@[0]@.skip(4)] + texts_of(components@).skip(2),
            texts_of(p_stack@) == wanted.take(at - 1),
        decreases components.len() - at,
    {
        let name = components[at].clone();
        proof {
            lemma_texts_push(p_stack@, name);
            assert(wanted.take(at as int) =~= wanted.take(at - 1).push(name@));
        }
        p_stack.push(name);
        at += 1;
    }
    assert(wanted.take(at - 1) =~= wanted);
    p_stack
}

impl DirectoryStack {
    /// The names of all directories from the topmost one to the focused one.
    pub fn path_names(&self) -> (names: Vec<String>)
        ensures
            texts_of(names@) == self@.names(),
    {
        let ghost wanted = self@.names();
        let mut names: Vec<String> = Vec::new();
        let mut at: usize = 0;
        assert(texts_of(names@) =~= wanted.take(0));
        while at < self.ancestors.len()
            invariant
                at <= self.ancestors@.len(),
                wanted == self@.names(),
                texts_of(names@) == wanted.take(at as int),
            decreases self.ancestors.len() - at,
        {
            let name = self.ancestors[at].clone();
            proof {
                lemma_texts_push(names@, name);
                assert(wanted.take(at + 1) =~= wanted.take(at as int).push(name@));
            }
            names.push(name);
            at += 1;
        }
        let above = self.ancestors.len();
        at = 0;
        while at < self.panes.len()
            invariant
                at <= self.panes@.len(),
                above == self.ancestors@.len(),
                wanted == self@.names(),
                texts_of(names@) == wanted.take(above + at),
            decreases self.panes.len() - at,
        {
            let name = self.panes[at].name.clone();
            proof {
                lemma_texts_push(names@, name);
                assert(stack_view(self.panes@)[at as int].name == name@);
                assert(wanted.take(above + at + 1) =~= wanted.take(above + at).push(name@));
            }
            names.push(name);
            at += 1;
        }
        assert(wanted.take(above + at) =~= wanted);
        names
    }

    /// The path of the focused directory: the names of the stack with `/`
    /// between neighbours.
    pub fn current_path(&self) -> (path: String)
        ensures
            path@ == joined(self@.names(), "/"@),
    {
        let names = self.path_names();
        join(&names, "/")
    }
}

} // verus!
