//! What holds of the moves on the stack, whatever the stack and the
//! listings are.

use vstd::prelude::*;
use crate::config::Config;
use crate::directory::{clamped_row, snapshot_of};
use crate::entry::{
    dirs_first, has_name, lemma_dirs_first_keeps_names, lemma_has_name_first, synced_index, EntryView,
};
use crate::stack::StackView;

verus! {

/// The path follows the moves: entering a directory adds its name at the
/// end, leaving the focused directory takes the last name away, and moving
/// the selection leaves the path alone. Panes that are dropped at the front
/// stay on the path.
pub proof fn lemma_path_follows_moves(
    stack: StackView,
    target: Seq<char>,
    listing: Seq<EntryView>,
    reread: Option<Seq<EntryView>>,
    delta: int,
    config: Config,
)
    requires
        stack.panes.len() >= 1,
    ensures
        stack.descended(target, listing, config).names() == stack.names().push(target),
        stack.moved(delta, config).names() == stack.names(),
        stack.ascended(reread, config).names() == if stack.panes.len() >= 2 || (stack.needs_ancestor()
            && reread is Some) {
            stack.names().drop_last()
        } else {
            stack.names()
        },
{
    assert(stack.descended(target, listing, config).names() =~= stack.names().push(target));
    assert(stack.moved(delta, config).names() =~= stack.names());
    if stack.panes.len() >= 2 || (stack.needs_ancestor() && reread is Some) {
        assert(stack.ascended(reread, config).names() =~= stack.names().drop_last());
    }
}

/// Moving up on the top row, or down on the last row, changes nothing.
pub proof fn lemma_move_stops_at_ends(stack: StackView, delta: int, config: Config)
    requires
        stack.wf(config),
    ensures
        delta <= 0 && stack.focused().selected == 0 ==> stack.moved(delta, config) == stack,
        delta >= 0 && stack.focused().selected + 1 >= stack.focused().entries.len() ==> stack.moved(
            delta,
            config,
        ) == stack,
{
    let last = stack.panes.len() - 1;
    let focused = stack.focused();
    assert(focused.wf() && focused.windowed(config.n_rows as int));
    let row = clamped_row(focused.selected, delta, focused.entries.len() as int);
    if (delta <= 0 && focused.selected == 0) || (delta >= 0 && focused.selected + 1
        >= focused.entries.len()) {
        assert(row == focused.selected);
        assert(focused.with_selected(row).rewindowed(config.n_rows as int) == focused);
        assert(stack.moved(delta, config).panes =~= stack.panes);
    }
}

/// The stack after `times` moves of the selection by `delta` rows each.
pub open spec fn moved_times(stack: StackView, delta: int, times: nat, config: Config) -> StackView
    decreases times,
{
    if times == 0 {
        stack
    } else {
        moved_times(stack.moved(delta, config), delta, (times - 1) as nat, config)
    }
}

/// However often the selection is moved up on the top row, or down on the
/// last row, it stays where it is, and so does the rest of the stack.
pub proof fn lemma_repeated_move_stops_at_ends(stack: StackView, delta: int, times: nat, config: Config)
    requires
        stack.wf(config),
        (delta <= 0 && stack.focused().selected == 0) || (delta >= 0 && stack.focused().selected + 1
            >= stack.focused().entries.len()),
    ensures
        moved_times(stack, delta, times, config) == stack,
    decreases times,
{
    if times > 0 {
        lemma_move_stops_at_ends(stack, delta, config);
        lemma_repeated_move_stops_at_ends(stack, delta, (times - 1) as nat, config);
    }
}

/// Leaving a directory right after entering it puts the selection of the
/// directory above back on it.
///
/// The focused pane is then the pane that was focused before, with its
/// selection on the first entry that carries the name of the directory
/// entered, and the path is the path before. The directory above is read
/// again only where the stack holds one pane; the listing read then must be
/// the one the pane had, in any order that gives the same directory-first
/// order. Where the selection already stood on that entry, the focused pane
/// is exactly as it was.
pub proof fn lemma_ascend_after_descend(
    stack: StackView,
    name: Seq<char>,
    listing: Seq<EntryView>,
    reread: Option<Seq<EntryView>>,
    config: Config,
)
    requires
        stack.wf(config),
        stack.descended(name, listing, config).needs_ancestor() ==> reread is Some && dirs_first(
            reread->0,
        ) == stack.focused().entries,
    ensures
        ({
            let back = stack.descended(name, listing, config).ascended(reread, config);
            &&& back.focused() == stack.focused().with_selected(
                synced_index(stack.focused().entries, name),
            ).rewindowed(config.n_rows as int)
            &&& back.names() == stack.names()
            &&& has_name(stack.focused().entries, name) ==> back.focused().entries[back.focused().selected].name
                == name
            &&& stack.focused().selected == synced_index(stack.focused().entries, name) ==> back.focused()
                == stack.focused()
        }),
{
    let rows = config.n_rows as int;
    let last = stack.panes.len() - 1;
    let parent = stack.focused();
    let pointing = stack.pointing_at(name, config);
    let child = snapshot_of(name, listing, None, rows);
    let grown = StackView { panes: pointing.panes.push(child), ..pointing };
    let down = stack.descended(name, listing, config);
    let back = down.ascended(reread, config);
    let turned = parent.with_selected(synced_index(parent.entries, name)).rewindowed(rows);
    assert(parent.wf() && parent.windowed(rows));
    assert(pointing.panes[last] == turned);
    assert(down.focused() == child);
    assert(child.name == name);
    if has_name(parent.entries, name) {
        lemma_has_name_first(parent.entries, name);
    }
    if down.panes.len() >= 2 {
        let rest = down.panes.drop_last();
        assert(rest.last() == turned);
        assert(turned.with_selected(synced_index(turned.entries, name)).rewindowed(rows) == turned);
        assert(back.focused() == turned);
        if grown.panes.len() > config.max_directory_depth {
            assert(back.ancestors == stack.ancestors.push(stack.panes[0].name));
            assert(back.panes =~= pointing.panes.skip(1));
            assert(back.names() =~= stack.names());
        } else {
            assert(back.panes =~= pointing.panes);
            assert(back.names() =~= stack.names());
        }
    } else {
        // The child is the only pane: the directory above was dropped and is
        // read again.
        assert(grown.panes.len() == 2);
        assert(stack.panes.len() == 1);
        assert(down.ancestors == stack.ancestors.push(turned.name));
        assert(down.needs_ancestor());
        let again = reread->0;
        lemma_dirs_first_keeps_names(again);
        assert(back.panes[0] == snapshot_of(turned.name, again, Some(name), rows));
        assert(back.focused() == turned);
        assert(back.ancestors =~= stack.ancestors);
        assert(back.names() =~= stack.names());
    }
}

} // verus!
