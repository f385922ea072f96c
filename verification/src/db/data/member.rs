//! The houses of an account with their members.
use crate::dto::entity::simple::{AccountInfo, HouseInfo, HouseMember, HouseMemberView, MemberInfo};
use crate::search::{first_index, lemma_filter_nonempty, lemma_filter_push, lemma_first_index, lemma_first_index_bounds};
use vstd::prelude::*;

verus! {

/// A row of the member query: a member account of a house.
pub struct MemberRow {
    pub account_id: i32,
    pub username: String,
    pub house_id: i32,
    pub house_name: String,
}

/// Whether a house of the member listing has the given id.
pub open spec fn member_house_has_id(id: i32) -> spec_fn(HouseMemberView) -> bool {
    |h: HouseMemberView| h.house_info.house_id == id
}

/// A row added to the houses seen so far: its account joins its house, which
/// is appended, named by the row, if it is new.
pub open spec fn add_member_row(houses: Seq<HouseMemberView>, row: MemberRow) -> Seq<HouseMemberView> {
    let i = first_index(houses, member_house_has_id(row.house_id));
    let account = AccountInfo { account_id: row.account_id, username: row.username };
    if i < houses.len() {
        houses.update(i, HouseMemberView { account: houses[i].account.push(account), ..houses[i] })
    } else {
        houses.push(
            HouseMemberView {
                house_info: HouseInfo { house_id: row.house_id, house_name: row.house_name },
                account: seq![account],
            },
        )
    }
}

/// The rows, taken in order, grouped by house.
pub open spec fn group_member_rows(rows: Seq<MemberRow>) -> Seq<HouseMemberView> {
    rows.fold_left(Seq::<HouseMemberView>::empty(), |acc: Seq<HouseMemberView>, r: MemberRow| add_member_row(acc, r))
}

/// The houses of the member listing taken by their views.
pub open spec fn members_view(v: Seq<HouseMember>) -> Seq<HouseMemberView> {
    v.map_values(|h: HouseMember| h@)
}

fn add_row_to_members(houses: &mut Vec<HouseMember>, row: MemberRow)
    ensures
        members_view(final(houses)@) == add_member_row(members_view(old(houses)@), row),
{
    let ghost old_view = members_view(houses@);
    let ghost spec_row = row;
    let MemberRow { account_id, username, house_id, house_name } = row;
    let n = houses.len();
    let mut i: usize = 0;
    while i < n && houses[i].house_info.house_id != house_id
        invariant
            0 <= i <= n,
            n == houses.len(),
            houses@ == old(houses)@,
            old_view == members_view(houses@),
            forall|j: int| 0 <= j < i ==> !member_house_has_id(house_id)(#[trigger] old_view[j]),
        decreases n - i,
    {
        i = i + 1;
    }
    proof {
        lemma_first_index(old_view, member_house_has_id(house_id), i as int);
    }
    let account = AccountInfo { account_id, username };
    if i < n {
        let mut h = houses.remove(i);
        h.account.push(account);
        houses.insert(i, h);
        proof {
            assert(members_view(houses@) =~= add_member_row(old_view, spec_row));
        }
    } else {
        let mut accounts = Vec::new();
        accounts.push(account);
        houses.push(HouseMember { house_info: HouseInfo { house_id, house_name }, account: accounts });
        proof {
            assert(members_view(houses@) =~= add_member_row(old_view, spec_row));
        }
    }
}

/// The member rows grouped by house, in the order in which the rows first
/// name the houses, each house with its member accounts in row order.
pub fn members_from_rows(rows: Vec<MemberRow>) -> (info: MemberInfo)
    ensures
        info@ == group_member_rows(rows@),
{
    let ghost all = rows@;
    let mut houses: Vec<HouseMember> = Vec::new();
    let mut rest = rows;
    let ghost mut done: int = 0;
    proof {
        assert(members_view(houses@) =~= all.take(0).fold_left(Seq::<HouseMemberView>::empty(), |acc: Seq<HouseMemberView>, r: MemberRow| add_member_row(acc, r)));
    }
    while rest.len() > 0
        invariant
            0 <= done <= all.len(),
            rest@ == all.skip(done),
            members_view(houses@) == all.take(done).fold_left(Seq::<HouseMemberView>::empty(), |acc: Seq<HouseMemberView>, r: MemberRow| add_member_row(acc, r)),
        decreases rest.len(),
    {
        let row = rest.remove(0);
        proof {
            assert(row == all[done]);
            assert(all.take(done + 1).drop_last() =~= all.take(done));
        }
        add_row_to_members(&mut houses, row);
        proof {
            done = done + 1;
        }
    }
    proof {
        assert(all.take(done) =~= all);
    }
    MemberInfo { houses_member: houses }
}

/// The number of member accounts listed over all houses.
pub open spec fn member_count(houses: Seq<HouseMemberView>) -> int
    decreases houses.len(),
{
    if houses.len() == 0 {
        0
    } else {
        member_count(houses.drop_last()) + houses.last().account.len()
    }
}

proof fn lemma_member_count_update(houses: Seq<HouseMemberView>, i: int, h: HouseMemberView)
    requires
        0 <= i < houses.len(),
    ensures
        member_count(houses.update(i, h)) == member_count(houses) - houses[i].account.len() + h.account.len(),
    decreases houses.len(),
{
    if i < houses.len() - 1 {
        assert(houses.update(i, h).drop_last() =~= houses.drop_last().update(i, h));
        lemma_member_count_update(houses.drop_last(), i, h);
    } else {
        assert(houses.update(i, h).drop_last() =~= houses.drop_last());
    }
}

/// Grouping the member rows lists no house twice, and lists exactly one
/// account per row: the accounts listed over all houses number the rows.
pub proof fn law_members_distinct_and_counted(rows: Seq<MemberRow>)
    ensures
        forall|i: int, j: int| 0 <= i < j < group_member_rows(rows).len() ==>
            #[trigger] group_member_rows(rows)[i].house_info.house_id != #[trigger] group_member_rows(rows)[j].house_info.house_id,
        member_count(group_member_rows(rows)) == rows.len(),
    decreases rows.len(),
{
    if rows.len() > 0 {
        let prefix = rows.drop_last();
        law_members_distinct_and_counted(prefix);
        let before = group_member_rows(prefix);
        let row = rows.last();
        assert(group_member_rows(rows) == add_member_row(before, row));
        lemma_first_index_bounds(before, member_house_has_id(row.house_id));
        let i = first_index(before, member_house_has_id(row.house_id));
        let after = add_member_row(before, row);
        if i < before.len() {
            lemma_member_count_update(before, i, after[i]);
            assert(after == before.update(i, after[i]));
        } else {
            assert(after.drop_last() =~= before);
            assert forall|a: int, b: int| 0 <= a < b < after.len() implies
                #[trigger] after[a].house_info.house_id != #[trigger] after[b].house_info.house_id by {
                if b == before.len() {
                    assert(!member_house_has_id(row.house_id)(before[a]));
                }
            }
        }
    }
}

/// Whether a row belongs to the house with the given id.
pub open spec fn in_house(id: i32) -> spec_fn(MemberRow) -> bool {
    |r: MemberRow| r.house_id == id
}

/// The account that a row names.
pub open spec fn row_account(r: MemberRow) -> AccountInfo {
    AccountInfo { account_id: r.account_id, username: r.username }
}

/// The accounts of the rows of a house, in row order.
pub open spec fn house_accounts(rows: Seq<MemberRow>, id: i32) -> Seq<AccountInfo> {
    rows.filter(in_house(id)).map_values(|r: MemberRow| row_account(r))
}

/// The listing holds exactly what the rows describe: each house once, named
/// by its first row, with the accounts of all its rows in order, and every
/// house of a row listed.
pub open spec fn members_exact(houses: Seq<HouseMemberView>, rows: Seq<MemberRow>) -> bool {
    &&& forall|i: int| 0 <= i < houses.len() ==> {
        let id = (#[trigger] houses[i]).house_info.house_id;
        &&& rows.filter(in_house(id)).len() > 0
        &&& houses[i].account == house_accounts(rows, id)
        &&& houses[i].house_info.house_name == rows.filter(in_house(id))[0].house_name
    }
    &&& forall|j: int| 0 <= j < rows.len() ==> exists|i: int| 0 <= i < houses.len()
        && #[trigger] houses[i].house_info.house_id == #[trigger] rows[j].house_id
}

#[verifier::spinoff_prover]
proof fn lemma_members_exact_step(rows: Seq<MemberRow>, r: MemberRow)
    requires
        members_exact(group_member_rows(rows), rows),
        forall|i: int, j: int| 0 <= i < j < group_member_rows(rows).len() ==>
            #[trigger] group_member_rows(rows)[i].house_info.house_id != #[trigger] group_member_rows(rows)[j].house_info.house_id,
    ensures
        members_exact(add_member_row(group_member_rows(rows), r), rows.push(r)),
{
    let g = group_member_rows(rows);
    let out = add_member_row(g, r);
    let rs = rows.push(r);
    lemma_first_index_bounds(g, member_house_has_id(r.house_id));
    let i0 = first_index(g, member_house_has_id(r.house_id));
    assert(rs.drop_last() =~= rows);
    assert forall|i: int| 0 <= i < out.len() implies {
        let id = (#[trigger] out[i]).house_info.house_id;
        &&& rs.filter(in_house(id)).len() > 0
        &&& out[i].account == house_accounts(rs, id)
        &&& out[i].house_info.house_name == rs.filter(in_house(id))[0].house_name
    } by {
        let id = out[i].house_info.house_id;
        lemma_filter_push(rows, in_house(id), r);
        if i < g.len() {
            assert(out[i].house_info == g[i].house_info);
            assert(rows.filter(in_house(id)).len() > 0);
            if i == i0 {
                assert(id == r.house_id);
                assert(rs.filter(in_house(id)) == rows.filter(in_house(id)).push(r));
                assert(house_accounts(rs, id) =~= house_accounts(rows, id).push(row_account(r)));
            } else {
                if id == r.house_id {
                    assert(i0 < g.len());
                    assert(g[i0].house_info.house_id == r.house_id);
                }
                assert(rs.filter(in_house(id)) == rows.filter(in_house(id)));
                assert(out[i] == g[i]);
            }
        } else {
            assert(i == g.len() && i0 == g.len());
            assert(id == r.house_id);
            if rows.filter(in_house(id)).len() > 0 {
                lemma_filter_nonempty(rows, in_house(id));
                let j = choose|j: int| 0 <= j < rows.len() && in_house(id)(#[trigger] rows[j]);
                let k = choose|k: int| 0 <= k < g.len() && #[trigger] g[k].house_info.house_id == #[trigger] rows[j].house_id;
                assert(!member_house_has_id(r.house_id)(g[k]));
            }
            assert(rows.filter(in_house(id)) =~= Seq::<MemberRow>::empty());
            assert(rs.filter(in_house(id)) =~= seq![r]);
            assert(house_accounts(rs, id) =~= seq![row_account(r)]);
        }
    }
    assert forall|j: int| 0 <= j < rs.len() implies exists|i: int| 0 <= i < out.len()
        && #[trigger] out[i].house_info.house_id == #[trigger] rs[j].house_id by {
        if j < rows.len() {
            assert(rs[j] == rows[j]);
            let k = choose|k: int| 0 <= k < g.len() && #[trigger] g[k].house_info.house_id == #[trigger] rows[j].house_id;
            assert(out[k].house_info.house_id == g[k].house_info.house_id);
        } else {
            assert(rs[j] == r);
            assert(out[i0].house_info.house_id == r.house_id);
        }
    }
}

/// Grouping the member rows lists exactly the houses of the rows, each with
/// the name of the first row that names it and with the accounts of all its
/// rows, in row order.
pub proof fn law_members_exact(rows: Seq<MemberRow>)
    ensures
        members_exact(group_member_rows(rows), rows),
    decreases rows.len(),
{
    if rows.len() > 0 {
        let pre = rows.drop_last();
        law_members_exact(pre);
        law_members_distinct_and_counted(pre);
        lemma_members_exact_step(pre, rows.last());
        assert(pre.push(rows.last()) =~= rows);
        assert(group_member_rows(rows) == add_member_row(group_member_rows(pre), rows.last()));
    } else {
        assert(group_member_rows(rows) =~= Seq::<HouseMemberView>::empty());
    }
}

} // verus!
