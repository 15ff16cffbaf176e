//! What holds of every run.

use vstd::prelude::*;
use crate::error::mount_failure;
use crate::executor::{
    answers, next_step, outstanding, shows_tmpfs, ActionView, EventView, PhaseView, StepView,
};
use crate::inspect::{
    fields, is_line, is_mounted, is_space, lemma_fields_skip_spaces, lemma_word_len_is,
    row_matches, word_len,
};
use crate::model::{
    after, all_in_place, changes_system, exact_run, faithful, faithful_run, in_place,
    mounted_in_place, one_mode_each, run, target, Outcome, World,
};
use crate::orchestrator::{enter, next_turn, ProgressView, TurnView};
use crate::table::MountSpecView;

verus! {

/// What a faithful run keeps true from event to event.
///
/// Of the directories other than the one in hand: those of earlier entries
/// are as required, and so is each that is backed by tmpfs. Of the directory
/// in hand: what the operations so far have achieved.
spec fn settled(table: Seq<MountSpecView>, at: Outcome) -> bool {
    match at.turn {
        TurnView::Done(Ok(_)) => all_in_place(at.world, table),
        TurnView::Done(Err(_)) => true,
        TurnView::Next(progress, action) => {
            let cfg = table[progress.index];
            &&& 0 <= progress.index < table.len()
            &&& action == outstanding(cfg, progress.phase)
            &&& forall|i: int|
                0 <= i < table.len() && (#[trigger] table[i]).path != cfg.path ==> {
                    &&& i < progress.index ==> in_place(at.world, table[i])
                    &&& at.world.tmpfs.contains(table[i].path) ==> in_place(at.world, table[i])
                }
            &&& match progress.phase {
                PhaseView::Inspecting => at.world.tmpfs.contains(cfg.path) ==> in_place(
                    at.world,
                    cfg,
                ),
                PhaseView::Mounting => at.world.dirs.contains(cfg.path),
                PhaseView::SettingMode => at.world.dirs.contains(cfg.path)
                    && at.world.tmpfs.contains(cfg.path),
                _ => true,
            }
        },
    }
}

/// Taking up an entry keeps `settled`, when the entries before it are as
/// required.
proof fn lemma_enter_settled(table: Seq<MountSpecView>, world: World, index: int)
    requires
        one_mode_each(table),
        mounted_in_place(world, table),
        0 <= index <= table.len(),
        forall|i: int| 0 <= i < index ==> in_place(world, #[trigger] table[i]),
    ensures
        settled(table, Outcome { turn: enter(table, index), world, performed: Seq::empty() }),
{
}

/// One event keeps `settled`.
proof fn lemma_event_keeps_settled(
    table: Seq<MountSpecView>,
    world: World,
    progress: ProgressView,
    action: ActionView,
    event: EventView,
)
    requires
        one_mode_each(table),
        settled(table, Outcome { turn: TurnView::Next(progress, action), world, performed: Seq::empty() }),
        faithful(world, action, event),
    ensures
        settled(
            table,
            Outcome {
                turn: next_turn(table, progress, event),
                world: after(world, action, event),
                performed: Seq::empty(),
            },
        ),
{
    let cfg = table[progress.index];
    let then = after(world, action, event);
    let step = next_step(cfg, progress.phase, event);
    assert forall|i: int| 0 <= i < table.len() && (#[trigger] table[i]).path != cfg.path implies (
    in_place(then, table[i]) == in_place(world, table[i])) && (then.tmpfs.contains(table[i].path)
        == world.tmpfs.contains(table[i].path)) by {}
    match step {
        StepView::Done(Ok(_)) => {
            assert(in_place(then, cfg));
            assert forall|i: int| 0 <= i <= progress.index implies in_place(
                then,
                #[trigger] table[i],
            ) by {
                if table[i].path == cfg.path {
                    assert(table[i].mode == cfg.mode);
                }
            }
            assert(mounted_in_place(then, table)) by {
                assert forall|i: int|
                    0 <= i < table.len() && then.tmpfs.contains(
                        (#[trigger] table[i]).path,
                    ) implies in_place(then, table[i]) by {
                    if table[i].path == cfg.path {
                        assert(table[i].mode == cfg.mode);
                    }
                }
            }
            lemma_enter_settled(table, then, progress.index + 1);
        },
        StepView::Done(Err(_)) => {},
        StepView::Next(phase, next) => {},
    }
}

/// A faithful run is `settled` after each event.
proof fn lemma_run_settled(table: Seq<MountSpecView>, world: World, events: Seq<EventView>)
    requires
        one_mode_each(table),
        mounted_in_place(world, table),
        faithful_run(table, world, events),
    ensures
        settled(table, run(table, world, events)),
    decreases events.len(),
{
    if events.len() == 0 {
        lemma_enter_settled(table, world, 0);
    } else {
        let before = run(table, world, events.drop_last());
        lemma_run_settled(table, world, events.drop_last());
        match before.turn {
            TurnView::Next(progress, action) => {
                lemma_event_keeps_settled(table, before.world, progress, action, events.last());
            },
            TurnView::Done(_) => {},
        }
    }
}

/// After a run that ended in success, every directory of the table exists, is
/// backed by tmpfs and has the permission bits that the table gives it.
///
/// This is so from any beginning in which each directory that is mounted
/// already is as required in full, for a table that gives no directory two
/// modes, and whatever the events were, as long as each could be the end of its
/// operation.
pub proof fn lemma_success_puts_all_in_place(
    table: Seq<MountSpecView>,
    world: World,
    events: Seq<EventView>,
)
    requires
        one_mode_each(table),
        mounted_in_place(world, table),
        faithful_run(table, world, events),
        run(table, world, events).turn == TurnView::Done(Ok(())),
    ensures
        all_in_place(run(table, world, events).world, table),
{
    lemma_run_settled(table, world, events);
}

/// The readings of the mount list for the first `n` entries of `table`.
pub open spec fn readings(table: Seq<MountSpecView>, n: int) -> Seq<ActionView> {
    Seq::new(n as nat, |j: int| ActionView::ReadMounts { path: table[j].path })
}

/// Where every directory is backed by tmpfs and the mount list is complete, a
/// run reads the list once for each entry and does nothing else.
proof fn lemma_idle_run(table: Seq<MountSpecView>, world: World, events: Seq<EventView>)
    requires
        forall|i: int| 0 <= i < table.len() ==> world.tmpfs.contains((#[trigger] table[i]).path),
        exact_run(table, world, events),
    ensures
        events.len() <= table.len() ==> run(table, world, events) == (Outcome {
            turn: enter(table, events.len() as int),
            world,
            performed: readings(table, events.len() as int),
        }),
        events.len() >= table.len() ==> run(table, world, events) == (Outcome {
            turn: TurnView::Done(Ok(())),
            world,
            performed: readings(table, table.len() as int),
        }),
    decreases events.len(),
{
    if events.len() == 0 {
        assert(readings(table, 0) =~= Seq::empty());
    } else {
        let n = events.len() - 1;
        lemma_idle_run(table, world, events.drop_last());
        if n < table.len() {
            assert(world.tmpfs.contains(table[n].path));
            assert(readings(table, n).push(ActionView::ReadMounts { path: table[n].path })
                =~= readings(table, n + 1));
        }
    }
}

/// A second run does nothing.
///
/// After a run that ended in success, a run over the same table that finds the
/// mount list readable and complete reads it once for each entry, mounts
/// nothing, sets no permission bits, leaves the system as it was and ends in
/// success.
pub proof fn lemma_second_run_does_nothing(
    table: Seq<MountSpecView>,
    world: World,
    first: Seq<EventView>,
    second: Seq<EventView>,
)
    requires
        one_mode_each(table),
        mounted_in_place(world, table),
        faithful_run(table, world, first),
        run(table, world, first).turn == TurnView::Done(Ok(())),
        exact_run(table, run(table, world, first).world, second),
        second.len() >= table.len(),
    ensures
        run(table, run(table, world, first).world, second).turn == TurnView::Done(Ok(())),
        run(table, run(table, world, first).world, second).world == run(table, world, first).world,
        run(table, run(table, world, first).world, second).performed == readings(
            table,
            table.len() as int,
        ),
        forall|j: int|
            0 <= j < run(table, run(table, world, first).world, second).performed.len()
                ==> !changes_system(
                #[trigger] run(table, run(table, world, first).world, second).performed[j],
            ),
{
    lemma_success_puts_all_in_place(table, world, first);
    lemma_idle_run(table, run(table, world, first).world, second);
}

/// Events that come after the end of a run change nothing.
pub proof fn lemma_run_stays_done(
    table: Seq<MountSpecView>,
    world: World,
    events: Seq<EventView>,
    later: Seq<EventView>,
)
    requires
        run(table, world, events).turn is Done,
    ensures
        run(table, world, events + later) == run(table, world, events),
    decreases later.len(),
{
    if later.len() == 0 {
        assert(events + later =~= events);
    } else {
        assert((events + later).drop_last() =~= events + later.drop_last());
        lemma_run_stays_done(table, world, events, later.drop_last());
    }
}

/// Whether `path` is the directory of one of the entries of `table` up to the
/// one at `last`.
pub open spec fn listed_up_to(table: Seq<MountSpecView>, last: int, path: Seq<char>) -> bool {
    exists|i: int| 0 <= i <= last && i < table.len() && (#[trigger] table[i]).path == path
}

/// While a run goes on, the operation that is outstanding is the one of the
/// phase for the entry in hand, and no operation so far was about an entry
/// after it.
proof fn lemma_run_in_order(table: Seq<MountSpecView>, world: World, events: Seq<EventView>)
    ensures
        match run(table, world, events).turn {
            TurnView::Next(progress, action) => {
                &&& 0 <= progress.index < table.len()
                &&& action == outstanding(table[progress.index], progress.phase)
                &&& forall|j: int|
                    0 <= j < run(table, world, events).performed.len() ==> listed_up_to(
                        table,
                        progress.index,
                        target(#[trigger] run(table, world, events).performed[j]),
                    )
            },
            TurnView::Done(_) => true,
        },
    decreases events.len(),
{
    if events.len() > 0 {
        let before = run(table, world, events.drop_last());
        let now = run(table, world, events);
        lemma_run_in_order(table, world, events.drop_last());
        match (before.turn, now.turn) {
            (TurnView::Next(was, action), TurnView::Next(progress, _)) => {
                assert(was.index <= progress.index);
                assert(target(action) == table[was.index].path);
                assert forall|j: int| 0 <= j < now.performed.len() implies listed_up_to(
                    table,
                    progress.index,
                    target(#[trigger] now.performed[j]),
                ) by {
                    if j < before.performed.len() {
                        assert(now.performed[j] == before.performed[j]);
                        assert(listed_up_to(table, was.index, target(before.performed[j])));
                        let i = choose|i: int|
                            0 <= i <= was.index && i < table.len() && (#[trigger] table[i]).path
                                == target(before.performed[j]);
                        assert(0 <= i <= progress.index && table[i].path == target(
                            now.performed[j],
                        ));
                    } else {
                        assert(now.performed[j] == action);
                        assert(table[was.index].path == target(action));
                    }
                }
            },
            _ => {},
        }
    }
}

/// A failed mount ends the run, and nothing after it is touched.
///
/// When the mount for an entry fails, the mount list is logged and the run
/// ends in the failure of that mount, which names the entry's directory and
/// the cause, however the reading for the log ended and whatever events come
/// later. The system stays as it was before the mount was tried, so that what
/// earlier entries mounted is still there, and no operation of the whole run
/// was about an entry after the one that failed.
pub proof fn lemma_failed_mount_ends_run(
    table: Seq<MountSpecView>,
    world: World,
    events: Seq<EventView>,
    cause: Seq<char>,
    dump: EventView,
    later: Seq<EventView>,
)
    requires
        run(table, world, events).turn matches TurnView::Next(progress, _) && progress.phase
            == PhaseView::Mounting,
        dump is Mounts,
    ensures
        ({
            let before = run(table, world, events);
            let entry = before.turn->Next_0.index;
            let path = table[entry].path;
            let end = run(
                table,
                world,
                events.push(EventView::Finished(Err(cause))).push(dump) + later,
            );
            &&& 0 <= entry < table.len()
            &&& end.turn == TurnView::Done(Err(mount_failure(path, cause)))
            &&& end.world == before.world
            &&& end.performed == before.performed.push(ActionView::Mount { path }).push(
                ActionView::DumpMounts { path },
            )
            &&& forall|j: int|
                0 <= j < end.performed.len() ==> listed_up_to(
                    table,
                    entry,
                    target(#[trigger] end.performed[j]),
                )
        }),
{
    let before = run(table, world, events);
    let entry = before.turn->Next_0.index;
    let path = table[entry].path;
    let failed = events.push(EventView::Finished(Err(cause)));
    let dumped = failed.push(dump);
    lemma_run_in_order(table, world, events);
    assert(failed.drop_last() =~= events);
    assert(dumped.drop_last() =~= failed);
    let mid = run(table, world, failed);
    assert(mid.turn == TurnView::Next(
        ProgressView { index: entry, phase: PhaseView::Diagnosing(mount_failure(path, cause)) },
        ActionView::DumpMounts { path },
    ));
    let end = run(table, world, dumped);
    assert(end.turn == TurnView::Done(Err(mount_failure(path, cause))));
    lemma_run_stays_done(table, world, dumped, later);
    assert forall|j: int| 0 <= j < end.performed.len() implies listed_up_to(
        table,
        entry,
        target(#[trigger] end.performed[j]),
    ) by {
        if j < before.performed.len() {
            assert(end.performed[j] == before.performed[j]);
        } else {
            assert(table[entry].path == target(end.performed[j]));
        }
    }
}

/// No run takes a mount away: a directory that was backed by tmpfs when the
/// run began is so after every event.
pub proof fn lemma_mounts_stay(
    table: Seq<MountSpecView>,
    world: World,
    events: Seq<EventView>,
    path: Seq<char>,
)
    requires
        world.tmpfs.contains(path),
    ensures
        run(table, world, events).world.tmpfs.contains(path),
    decreases events.len(),
{
    if events.len() > 0 {
        lemma_mounts_stay(table, world, events.drop_last(), path);
    }
}

/// An event that is no answer to the operation that is outstanding changes
/// nothing: the same operation is asked for again.
pub proof fn lemma_stray_event_changes_nothing(
    cfg: MountSpecView,
    phase: PhaseView,
    event: EventView,
)
    requires
        !answers(phase, event),
    ensures
        next_step(cfg, phase, event) == StepView::Next(phase, outstanding(cfg, phase)),
{
}

/// An unreadable mount list holds nobody up: it shows no directory as mounted,
/// and the run goes on to see to the directory.
pub proof fn lemma_unreadable_list_proceeds(cfg: MountSpecView, path: Seq<char>)
    ensures
        !shows_tmpfs(None, path),
        next_step(cfg, PhaseView::Inspecting, EventView::Mounts(None)) == StepView::Next(
            PhaseView::CheckingDir,
            ActionView::CheckDir { path: cfg.path },
        ),
{
}

/// Whether `word` can be a column: it is not empty and holds no white space.
pub open spec fn is_word(word: Seq<char>) -> bool {
    word.len() > 0 && forall|k: int| 0 <= k < word.len() ==> !is_space(#[trigger] word[k])
}

/// A word at the start of a row, with white space or nothing behind it, is the
/// row's first column.
pub proof fn lemma_leading_word(word: Seq<char>, rest: Seq<char>)
    requires
        is_word(word),
        rest.len() == 0 || is_space(rest[0]),
    ensures
        fields(word + rest) == seq![word] + fields(rest),
{
    let row = word + rest;
    assert forall|i: int| 0 <= i < word.len() implies !is_space(#[trigger] row[i]) by {
        assert(row[i] == word[i]);
    }
    if rest.len() > 0 {
        assert(row[word.len() as int] == rest[0]);
    }
    lemma_word_len_is(row, word.len() as int);
    assert(row[0] == word[0]);
    assert(row.take(word.len() as int) =~= word);
    assert(row.skip(word.len() as int) =~= rest);
}

/// Every column is a word.
pub proof fn lemma_columns_are_words(row: Seq<char>, i: int)
    requires
        0 <= i < fields(row).len(),
    ensures
        is_word(fields(row)[i]),
    decreases row.len(),
{
    if row.len() > 0 {
        if is_space(row[0]) {
            lemma_columns_are_words(row.drop_first(), i);
        } else {
            let n = word_len(row) as int;
            lemma_first_word(row);
            if i > 0 {
                lemma_columns_are_words(row.skip(n), i - 1);
            }
        }
    }
}

/// The run of characters other than white space that a row starts with holds
/// no white space.
proof fn lemma_first_word(row: Seq<char>)
    ensures
        word_len(row) <= row.len(),
        forall|k: int| 0 <= k < word_len(row) ==> !is_space(#[trigger] row[k]),
        row.len() > 0 && !is_space(row[0]) ==> is_word(row.take(word_len(row) as int)),
    decreases row.len(),
{
    if row.len() > 0 && !is_space(row[0]) {
        let tail = row.drop_first();
        lemma_first_word(tail);
        assert forall|k: int| 0 <= k < word_len(row) implies !is_space(#[trigger] row[k]) by {
            if k > 0 {
                assert(row[k] == tail[k - 1]);
            }
        }
    }
}

/// The row made of a device, a mount point and a filesystem type, with one
/// blank between them.
pub open spec fn plain_row(device: Seq<char>, point: Seq<char>, kind: Seq<char>) -> Seq<char> {
    device + seq![' '] + point + seq![' '] + kind
}

/// Matching is literal.
///
/// A row that names a mount point and a filesystem type matches a path and a
/// type if and only if the mount point is the path and the filesystem type is
/// the type, character for character. A mount point that differs from the
/// path in any way, by a trailing slash, in case or as another name for the
/// same directory, is no match.
pub proof fn lemma_match_is_literal(
    device: Seq<char>,
    point: Seq<char>,
    kind: Seq<char>,
    path: Seq<char>,
    fs_type: Seq<char>,
)
    requires
        is_word(device),
        is_word(point),
        is_word(kind),
    ensures
        fields(plain_row(device, point, kind)) == seq![device, point, kind],
        row_matches(plain_row(device, point, kind), path, fs_type) <==> point == path && kind
            == fs_type,
{
    let blank = seq![' '];
    let after_kind = Seq::<char>::empty();
    let after_point = blank + kind;
    let after_device = blank + (point + after_point);
    assert(is_space(' '));
    assert(fields(after_kind) =~= Seq::empty());
    lemma_leading_word(kind, after_kind);
    assert(kind + after_kind =~= kind);
    lemma_fields_skip_spaces(after_point, 1);
    assert(after_point.skip(1) =~= kind);
    lemma_leading_word(point, after_point);
    lemma_fields_skip_spaces(after_device, 1);
    assert(after_device.skip(1) =~= point + after_point);
    lemma_leading_word(device, after_device);
    assert(plain_row(device, point, kind) =~= device + after_device);
    assert(fields(plain_row(device, point, kind)) =~= seq![device, point, kind]);
}

/// A row never matches a path that is no word: the empty path, or one that
/// holds white space.
pub proof fn lemma_only_words_match(row: Seq<char>, path: Seq<char>, fs_type: Seq<char>)
    requires
        row_matches(row, path, fs_type),
    ensures
        is_word(path),
        is_word(fs_type),
{
    lemma_columns_are_words(row, 1);
    lemma_columns_are_words(row, 2);
}

/// A path with a slash behind it is another path.
pub proof fn lemma_trailing_slash_differs(path: Seq<char>)
    ensures
        path.push('/') != path,
{
    assert(path.push('/').len() == path.len() + 1);
}

/// A mount list of one line shows what its row shows.
pub proof fn lemma_list_of_one_row(row: Seq<char>, path: Seq<char>, fs_type: Seq<char>)
    requires
        forall|k: int| 0 <= k < row.len() ==> row[k] != '\n',
    ensures
        is_mounted(row, path, fs_type) <==> row_matches(row, path, fs_type),
{
    assert(row.subrange(0, row.len() as int) =~= row);
    if row_matches(row, path, fs_type) {
        assert(is_line(row, 0, row.len() as int));
    }
    if is_mounted(row, path, fs_type) {
        let (start, end) = choose|start: int, end: int|
            is_line(row, start, end) && #[trigger] row_matches(
                row.subrange(start, end),
                path,
                fs_type,
            );
        if start > 0 {
            assert(row[start - 1] != '\n');
        }
        if end < row.len() {
            assert(row[end] != '\n');
        }
        assert(start == 0 && end == row.len());
    }
}

/// A mount list of one plain row shows its mount point, with its filesystem
/// type, and nothing else.
pub proof fn lemma_list_match_is_literal(
    device: Seq<char>,
    point: Seq<char>,
    kind: Seq<char>,
    path: Seq<char>,
    fs_type: Seq<char>,
)
    requires
        is_word(device),
        is_word(point),
        is_word(kind),
    ensures
        is_mounted(plain_row(device, point, kind), path, fs_type) <==> point == path && kind
            == fs_type,
{
    let row = plain_row(device, point, kind);
    assert(is_space('\n'));
    assert forall|k: int| 0 <= k < row.len() implies row[k] != '\n' by {
        if k < device.len() {
            assert(row[k] == device[k]);
        } else if k == device.len() {
            assert(row[k] == ' ');
        } else if k < device.len() + 1 + point.len() {
            assert(row[k] == point[k - device.len() - 1]);
        } else if k == device.len() + 1 + point.len() {
            assert(row[k] == ' ');
        } else {
            assert(row[k] == kind[k - device.len() - point.len() - 2]);
        }
    }
    lemma_list_of_one_row(row, path, fs_type);
    lemma_match_is_literal(device, point, kind, path, fs_type);
}

} // verus!
