use vstd::prelude::*;

use crate::api::{run, spec_handle, CommandView, Status};
use crate::store::{has_id, ids_unique, lemma_filter_keeps_unique, not_id};
use crate::todo::TodoView;

verus! {

/// Every command keeps the ids of the records unique.
pub proof fn lemma_handle_keeps_ids_unique(s: Seq<TodoView>, c: CommandView)
    requires
        ids_unique(s),
    ensures
        ids_unique(spec_handle(s, c).state),
{
    match c {
        CommandView::List => {},
        CommandView::Create(t) => {
            if !has_id(s, t.id) {
                let n = s.push(t);
                assert forall|i: int, j: int|
                    0 <= i < n.len() && 0 <= j < n.len() && i != j implies #[trigger] n[i].id
                    != #[trigger] n[j].id by {
                    if i == s.len() {
                        assert(s[j].id == n[j].id);
                    } else if j == s.len() {
                        assert(s[i].id == n[i].id);
                    }
                }
            }
        },
        CommandView::Update(id, t) => {
            let n = spec_handle(s, c).state;
            assert(forall|i: int| 0 <= i < s.len() ==> (#[trigger] n[i]).id == s[i].id);
        },
        CommandView::Delete(id) => {
            lemma_filter_keeps_unique(s, not_id(id));
        },
    }
}

/// Listing changes nothing, so listing again gives the same reply.
pub proof fn lemma_list_idempotent(s: Seq<TodoView>)
    ensures
        spec_handle(s, CommandView::List).state == s,
        spec_handle(spec_handle(s, CommandView::List).state, CommandView::List) == spec_handle(
            s,
            CommandView::List,
        ),
{
}

/// From records with unique ids, any sequence of commands (creates among
/// them) leaves the ids unique.
pub proof fn lemma_run_keeps_ids_unique(s: Seq<TodoView>, cs: Seq<CommandView>)
    requires
        ids_unique(s),
    ensures
        ids_unique(run(s, cs)),
    decreases cs.len(),
{
    if cs.len() > 0 {
        lemma_run_keeps_ids_unique(s, cs.drop_last());
        lemma_handle_keeps_ids_unique(run(s, cs.drop_last()), cs.last());
    }
}

/// A create whose id is already in use is refused with `400` and changes
/// nothing; in particular a second create with the id of an earlier one.
pub proof fn lemma_create_taken_id_refused(s: Seq<TodoView>, first: TodoView, t: TodoView)
    requires
        first.id == t.id,
    ensures
        has_id(s, t.id) ==> spec_handle(s, CommandView::Create(t)).status == Status::BadRequest
            && spec_handle(s, CommandView::Create(t)).state == s,
        ({
            let after = spec_handle(s, CommandView::Create(first)).state;
            spec_handle(after, CommandView::Create(t)).status == Status::BadRequest
                && spec_handle(after, CommandView::Create(t)).state == after
        }),
{
    let after = spec_handle(s, CommandView::Create(first)).state;
    if !has_id(s, first.id) {
        assert(after[s.len() as int].id == t.id);
    }
}

/// An update of an id that is there replaces that record's text and
/// completion, keeps its id and position, and touches no other record; an
/// update of an id that is not there answers `404` and changes nothing.
pub proof fn lemma_update_or_not_found(s: Seq<TodoView>, id: u64, t: TodoView)
    requires
        ids_unique(s),
    ensures
        ({
            let o = spec_handle(s, CommandView::Update(id, t));
            &&& has_id(s, id) ==> {
                &&& o.status == Status::Success
                &&& o.state.len() == s.len()
                &&& exists|i: int|
                    0 <= i < s.len() && #[trigger] s[i].id == id && o.state[i] == (TodoView {
                        id,
                        text: t.text,
                        completed: t.completed,
                    }) && forall|j: int| 0 <= j < s.len() && j != i ==> #[trigger] o.state[j] == s[j]
            }
            &&& !has_id(s, id) ==> o.status == Status::NotFound && o.state == s
        }),
{
    let o = spec_handle(s, CommandView::Update(id, t));
    if has_id(s, id) {
        let i = choose|i: int| 0 <= i < s.len() && #[trigger] s[i].id == id;
        assert(o.state[i] == (TodoView { id, text: t.text, completed: t.completed }));
        assert forall|j: int| 0 <= j < s.len() && j != i implies #[trigger] o.state[j] == s[j] by {
            assert(s[j].id != s[i].id);
        }
    } else {
        assert(o.state =~= s);
    }
}

/// After a delete that answered `204`, the id is gone: no listed record has
/// it, and a second delete or an update of it answers `404`.
pub proof fn lemma_delete_then_absent(s: Seq<TodoView>, id: u64, t: TodoView)
    ensures
        ({
            let o = spec_handle(s, CommandView::Delete(id));
            o.status == Status::NoContent ==> {
                &&& !has_id(o.state, id)
                &&& spec_handle(o.state, CommandView::Delete(id)).status == Status::NotFound
                &&& spec_handle(o.state, CommandView::Update(id, t)).status == Status::NotFound
                &&& spec_handle(o.state, CommandView::List).listed == Some(o.state)
            }
        }),
{
    let o = spec_handle(s, CommandView::Delete(id));
    broadcast use Seq::lemma_filter_pred;

    if has_id(o.state, id) {
        let i = choose|i: int| 0 <= i < o.state.len() && #[trigger] o.state[i].id == id;
        assert(not_id(id)(s.filter(not_id(id))[i]));
    }
}

/// The creates of records whose ids are distinct and not yet in use, in
/// any order, all answer `201`, and afterwards each of those records is in
/// the store once, after the records that were there.
pub proof fn lemma_distinct_creates_all_present(s: Seq<TodoView>, ts: Seq<TodoView>)
    requires
        ids_unique(s),
        ids_unique(ts),
        forall|k: int| 0 <= k < ts.len() ==> !has_id(s, #[trigger] ts[k].id),
    ensures
        ({
            let cs = ts.map_values(|t: TodoView| CommandView::Create(t));
            &&& run(s, cs) == s + ts
            &&& ids_unique(run(s, cs))
            &&& forall|k: int|
                0 <= k < ts.len() ==> spec_handle(run(s, cs.subrange(0, k)), #[trigger] cs[k]).status
                    == Status::Created
        }),
    decreases ts.len(),
{
    let cs = ts.map_values(|t: TodoView| CommandView::Create(t));
    if ts.len() > 0 {
        let p = ts.drop_last();
        let pcs = p.map_values(|t: TodoView| CommandView::Create(t));
        assert(forall|k: int| 0 <= k < p.len() ==> #[trigger] p[k] == ts[k]);
        assert(ids_unique(p));
        lemma_distinct_creates_all_present(s, p);
        assert(cs.drop_last() =~= pcs);
        let last = ts.last();
        assert(!has_id(s + p, last.id)) by {
            if has_id(s + p, last.id) {
                let i = choose|i: int| 0 <= i < (s + p).len() && #[trigger] (s + p)[i].id == last.id;
                if i < s.len() {
                    assert(s[i].id == last.id);
                    assert(!has_id(s, ts[ts.len() - 1].id));
                } else {
                    assert(p[i - s.len()] == ts[i - s.len()]);
                    assert(ts[i - s.len()].id != ts[ts.len() - 1].id);
                }
            }
        }
        assert((s + p).push(last) =~= s + ts);
        lemma_run_keeps_ids_unique(s, cs);
        assert forall|k: int|
            0 <= k < ts.len() implies spec_handle(run(s, cs.subrange(0, k)), #[trigger] cs[k]).status
            == Status::Created by {
            if k < p.len() {
                assert(cs.subrange(0, k) =~= pcs.subrange(0, k));
                assert(cs[k] == pcs[k]);
            } else {
                assert(cs.subrange(0, k) =~= pcs);
            }
        }
    } else {
        assert(s + ts =~= s);
        lemma_run_keeps_ids_unique(s, cs);
    }
}

} // verus!
