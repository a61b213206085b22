use vstd::prelude::*;

use crate::requirement::{
    NewRequirementItem, RequirementData, UpdateRequirementItem, created_rows,
    kept_rows, lemma_kept_step, news_view, synced, updates_view,
};
use crate::table::{MAX_ID, Row, Table, rows_view};

verus! {

/// Whether `x` occurs in `v`.
pub fn contains_id(v: &Vec<i64>, x: i64) -> (r: bool)
    ensures
        r == v@.contains(x),
{
    let mut i: usize = 0;
    while i < v.len()
        invariant
            i <= v.len(),
            forall|k: int| 0 <= k < i ==> v@[k] != x,
        decreases v.len() - i,
    {
        if v[i] == x {
            return true;
        }
        i = i + 1;
    }
    false
}

/// Applies deletes, then updates, then creates by `owner` to the requirement
/// table in one step. The caller has checked that each of them succeeds.
pub fn apply_sync(
    t: &mut Table<RequirementData>,
    owner: i64,
    kp: i64,
    deletes: &Vec<i64>,
    ups: &Vec<UpdateRequirementItem>,
    news: &Vec<NewRequirementItem>,
    now: i64,
)
    requires
        old(t).wf(),
        old(t).next_id + news@.len() <= MAX_ID,
    ensures
        final(t).wf(),
        final(t).next_id == old(t).next_id + news@.len(),
        final(t)@ == synced(
            old(t)@,
            owner,
            kp,
            deletes@,
            updates_view(ups@),
            news_view(news@),
            old(t).next_id,
            now,
        ),
{
    let ghost s = t@;
    let ghost uv = updates_view(ups@);
    let ghost nv = news_view(news@);
    let n = t.rows.len();
    let mut out: Vec<Row<RequirementData>> = Vec::new();
    let mut i: usize = 0;
    while i < n
        invariant
            n == t.rows.len(),
            s == t@,
            uv == updates_view(ups@),
            t.wf(),
            i <= n,
            rows_view(out@) == kept_rows(s.take(i as int), owner, deletes@, uv, now),
            forall|a: int|
                0 <= a < out@.len() ==> 1 <= #[trigger] out@[a].id && out@[a].id < (if i < n {
                    s[i as int].id
                } else {
                    t.next_id
                }),
            forall|a: int, b: int|
                0 <= a < b < out@.len() ==> #[trigger] out@[a].id < #[trigger] out@[b].id,
        decreases n - i,
    {
        let row = &t.rows[i];
        let deleted = row.user_id == owner && contains_id(deletes, row.id);
        proof {
            lemma_kept_step(s, i as int, owner, deletes@, uv, now);
            assert(s[i as int] == row@);
            if i + 1 < n {
                assert(s[i as int].id < s[i as int + 1].id);
            }
        }
        if !deleted {
            if row.user_id == owner {
                let (d, hit) = row.data.patched_by_all(ups, row.id);
                if hit {
                    out.push(
                        Row {
                            id: row.id,
                            user_id: row.user_id,
                            created_at: row.created_at,
                            updated_at: now,
                            data: d,
                        },
                    );
                } else {
                    out.push(row.duplicate());
                }
            } else {
                out.push(row.duplicate());
            }
        }
        assert(rows_view(out@) =~= kept_rows(s.take(i as int + 1), owner, deletes@, uv, now));
        i = i + 1;
    }
    assert(s.take(n as int) =~= s);
    let ghost kept = rows_view(out@);
    let mut next = t.next_id;
    let mut j: usize = 0;
    while j < news.len()
        invariant
            j <= news.len(),
            nv == news_view(news@),
            next == t.next_id + j,
            t.next_id + news@.len() <= MAX_ID,
            1 <= t.next_id,
            rows_view(out@) == kept + created_rows(nv.take(j as int), kp, owner, t.next_id, now),
            forall|a: int| 0 <= a < out@.len() ==> 1 <= #[trigger] out@[a].id && out@[a].id < next,
            forall|a: int, b: int|
                0 <= a < b < out@.len() ==> #[trigger] out@[a].id < #[trigger] out@[b].id,
        decreases news.len() - j,
    {
        let data = RequirementData::from_item(&news[j], kp);
        out.push(Row { id: next, user_id: owner, created_at: now, updated_at: now, data });
        proof {
            let c0 = created_rows(nv.take(j as int), kp, owner, t.next_id, now);
            let c1 = created_rows(nv.take(j as int + 1), kp, owner, t.next_id, now);
            assert(nv[j as int] == news@[j as int]@);
            assert(c1 =~= c0.push(out@.last()@));
            assert(kept + c1 =~= (kept + c0).push(out@.last()@));
        }
        assert(rows_view(out@) =~= kept + created_rows(nv.take(j as int + 1), kp, owner, t.next_id, now));
        next = next + 1;
        j = j + 1;
    }
    assert(nv.take(news@.len() as int) =~= nv);
    t.rows = out;
    t.next_id = next;
    assert(t@ =~= synced(s, owner, kp, deletes@, uv, nv, old(t).next_id, now));
}

} // verus!
