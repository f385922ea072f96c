//! The statements that record accounts and their personal information.
use crate::db::data::sql::{
    lemma_decimal_no_placeholder, lemma_no_placeholder, lemma_placeholder_count_concat, placeholder_count, SqlParam,
    SqlStatement,
};
use crate::dto::entity::simple::UserInfo;
use crate::dto::http::request::UserInfoUpdate;
use crate::text::{decimal, push_decimal};
use vstd::prelude::*;
use vstd::string::StringExecFns;

verus! {

/// The new value of a field: the one given, or else the stored one.
pub open spec fn chosen<T>(given: Option<T>, stored: Option<T>) -> Option<T> {
    match given {
        Some(v) => Some(v),
        None => stored,
    }
}

/// A text column set to `v`, or nothing when `v` is missing.
pub open spec fn text_assignment(column: Seq<char>, v: Option<String>) -> Seq<(Seq<char>, SqlParam)> {
    match v {
        Some(s) => seq![(column, SqlParam::Text(s))],
        None => seq![],
    }
}

/// An integer column set to `v`, or nothing when `v` is missing.
pub open spec fn int_assignment(column: Seq<char>, v: Option<i32>) -> Seq<(Seq<char>, SqlParam)> {
    match v {
        Some(n) => seq![(column, SqlParam::Int(n))],
        None => seq![],
    }
}

/// The columns that an update of the personal information sets, with their
/// values, in the order gender, city, age, email; a column whose new value
/// is missing is left out. The name is never set.
pub open spec fn user_info_assignments(update: UserInfoUpdate, stored: UserInfo) -> Seq<(Seq<char>, SqlParam)> {
    text_assignment("gender"@, chosen(update.gender, stored.gender))
        + text_assignment("city"@, chosen(update.city, stored.city))
        + int_assignment("age"@, chosen(update.age, stored.age))
        + text_assignment("email"@, chosen(update.email, stored.email))
}

/// `column = $k` for the `k`-th assignment (counting from 1).
pub open spec fn assignment_clause(column: Seq<char>, k: int) -> Seq<char> {
    column + " = $"@ + decimal(k)
}

/// The clauses of the columns, numbered from 1, separated by `, `.
pub open spec fn assignment_list(columns: Seq<Seq<char>>) -> Seq<char>
    decreases columns.len(),
{
    if columns.len() == 0 {
        Seq::empty()
    } else if columns.len() == 1 {
        assignment_clause(columns[0], 1)
    } else {
        assignment_list(columns.drop_last()) + ", "@ + assignment_clause(columns.last(), columns.len() as int)
    }
}

/// The columns of the assignments, in order.
pub open spec fn assignment_columns(a: Seq<(Seq<char>, SqlParam)>) -> Seq<Seq<char>> {
    a.map_values(|x: (Seq<char>, SqlParam)| x.0)
}

/// The values of the assignments, in order.
pub open spec fn assignment_params(a: Seq<(Seq<char>, SqlParam)>) -> Seq<SqlParam> {
    a.map_values(|x: (Seq<char>, SqlParam)| x.1)
}

/// `UPDATE user_info SET <clauses> WHERE account_id = $<n + 1>` for `n` assignments.
pub open spec fn user_info_update_text(a: Seq<(Seq<char>, SqlParam)>) -> Seq<char> {
    "UPDATE user_info SET "@ + assignment_list(assignment_columns(a)) + " WHERE account_id = $"@ + decimal(a.len() + 1int)
}

/// How the personal information of an account is written.
#[derive(Debug)]
pub enum UserInfoWrite {
    /// No information is stored yet: a new record with the given fields.
    Insert { account_id: i32, gender: Option<String>, city: Option<String>, age: Option<i32>, email: Option<String> },
    /// The stored record is changed by this statement.
    Update(SqlStatement),
    /// No field has a value: nothing is written, and no row changes.
    Unchanged,
}

fn push_assignment(query: &mut String, params: &mut Vec<SqlParam>, column: &str, param: SqlParam, Ghost(columns): Ghost<Seq<Seq<char>>>)
    requires
        old(params)@.len() == columns.len(),
        old(query)@ == "UPDATE user_info SET "@ + assignment_list(columns),
        old(params)@.len() < 100,
    ensures
        final(params)@ == old(params)@.push(param),
        final(query)@ == "UPDATE user_info SET "@ + assignment_list(columns.push(column@)),
{
    let ghost q0 = query@;
    if params.len() > 0 {
        query.append(", ");
    }
    query.append(column);
    query.append(" = $");
    params.push(param);
    push_decimal(query, params.len() as i64);
    proof {
        let c2 = columns.push(column@);
        assert(c2.drop_last() =~= columns);
        if columns.len() == 0 {
            assert(query@ =~= "UPDATE user_info SET "@ + assignment_list(c2));
        } else {
            assert(query@ =~= "UPDATE user_info SET "@ + assignment_list(c2));
        }
    }
}

spec fn building(query: Seq<char>, params: Seq<SqlParam>, taken: Seq<(Seq<char>, SqlParam)>) -> bool {
    &&& query == "UPDATE user_info SET "@ + assignment_list(assignment_columns(taken))
    &&& params == assignment_params(taken)
    &&& taken.len() < 100
}

fn push_optional(query: &mut String, params: &mut Vec<SqlParam>, column: &str, param: Option<SqlParam>, Ghost(taken): Ghost<Seq<(Seq<char>, SqlParam)>>)
    requires
        building(old(query)@, old(params)@, taken),
        taken.len() < 4,
    ensures
        building(final(query)@, final(params)@, taken + match param { Some(p) => seq![(column@, p)], None => seq![] }),
{
    match param {
        Some(p) => {
            let ghost pp = p;
            push_assignment(query, params, column, p, Ghost(assignment_columns(taken)));
            proof {
                let t2 = taken + seq![(column@, pp)];
                assert(assignment_columns(t2) =~= assignment_columns(taken).push(column@));
                assert(assignment_params(t2) =~= assignment_params(taken).push(pp));
            }
        },
        None => {
            proof {
                assert(taken + Seq::<(Seq<char>, SqlParam)>::empty() =~= taken);
            }
        },
    }
}

fn text_param(v: Option<String>) -> (r: Option<SqlParam>)
    ensures
        r == match v { Some(s) => Some(SqlParam::Text(s)), None => None::<SqlParam> },
{
    match v {
        Some(s) => Some(SqlParam::Text(s)),
        None => None,
    }
}

/// How to write the personal information of an account: with no stored
/// record, a new one with the given fields; otherwise the statement that sets
/// each of gender, city, age and email to its given value, or else its stored
/// one, leaving out those with neither, and nothing when none is left.
pub fn plan_user_info_update(update: UserInfoUpdate, stored: Option<UserInfo>, account_id: i32) -> (w: UserInfoWrite)
    ensures
        stored is None ==> w == (UserInfoWrite::Insert {
            account_id,
            gender: update.gender,
            city: update.city,
            age: update.age,
            email: update.email,
        }),
        stored matches Some(o) ==> ({
            let a = user_info_assignments(update, o);
            &&& a.len() == 0 ==> w is Unchanged
            &&& a.len() > 0 ==> (w matches UserInfoWrite::Update(st) && st.query@ == user_info_update_text(a)
                && st.params@ == assignment_params(a).push(SqlParam::Int(account_id)))
        }),
{
    let ghost spec_update = update;
    match stored {
        None => UserInfoWrite::Insert {
            account_id,
            gender: update.gender,
            city: update.city,
            age: update.age,
            email: update.email,
        },
        Some(old) => {
            let ghost spec_old = old;
            let mut query = "UPDATE user_info SET ".to_string();
            let mut params: Vec<SqlParam> = Vec::new();
            let ghost t0: Seq<(Seq<char>, SqlParam)> = Seq::empty();
            proof {
                reveal_strlit("gender");
                reveal_strlit("city");
                reveal_strlit("age");
                reveal_strlit("email");
                assert(query@ =~= "UPDATE user_info SET "@ + assignment_list(assignment_columns(t0)));
                assert(params@ =~= assignment_params(t0));
            }
            let gender = match update.gender { Some(v) => Some(v), None => old.gender };
            push_optional(&mut query, &mut params, "gender", text_param(gender), Ghost(t0));
            let ghost t1 = t0 + text_assignment("gender"@, chosen(spec_update.gender, spec_old.gender));
            let city = match update.city { Some(v) => Some(v), None => old.city };
            push_optional(&mut query, &mut params, "city", text_param(city), Ghost(t1));
            let ghost t2 = t1 + text_assignment("city"@, chosen(spec_update.city, spec_old.city));
            let age = match update.age { Some(v) => Some(SqlParam::Int(v)), None => match old.age { Some(v) => Some(SqlParam::Int(v)), None => None } };
            push_optional(&mut query, &mut params, "age", age, Ghost(t2));
            let ghost t3 = t2 + int_assignment("age"@, chosen(spec_update.age, spec_old.age));
            let email = match update.email { Some(v) => Some(v), None => old.email };
            push_optional(&mut query, &mut params, "email", text_param(email), Ghost(t3));
            let ghost a = user_info_assignments(spec_update, spec_old);
            proof {
                assert(t3 + text_assignment("email"@, chosen(spec_update.email, spec_old.email)) =~= a);
            }
            if params.len() == 0 {
                return UserInfoWrite::Unchanged;
            }
            query.append(" WHERE account_id = $");
            push_decimal(&mut query, (params.len() + 1) as i64);
            params.push(SqlParam::Int(account_id));
            proof {
                assert(query@ =~= user_info_update_text(a));
            }
            UserInfoWrite::Update(SqlStatement { query, params })
        },
    }
}

/// The lowercase hexadecimal digit of a value below 16.
pub open spec fn hex_digit(n: int) -> char {
    if n < 10 {
        crate::text::digit_char(n)
    } else if n == 10 { 'a' }
    else if n == 11 { 'b' }
    else if n == 12 { 'c' }
    else if n == 13 { 'd' }
    else if n == 14 { 'e' }
    else { 'f' }
}

/// Two lowercase hexadecimal digits per byte, high half first.
pub open spec fn hex_lower(bytes: Seq<u8>) -> Seq<char>
    decreases bytes.len(),
{
    if bytes.len() == 0 {
        Seq::empty()
    } else {
        hex_lower(bytes.drop_last()) + seq![hex_digit(bytes.last() as int / 16), hex_digit(bytes.last() as int % 16)]
    }
}

/// Hexadecimal text has two digits per byte.
pub proof fn law_hex_has_two_digits_per_byte(bytes: Seq<u8>)
    ensures
        hex_lower(bytes).len() == 2 * bytes.len(),
    decreases bytes.len(),
{
    if bytes.len() > 0 {
        law_hex_has_two_digits_per_byte(bytes.drop_last());
    }
}

/// Calls `hex::encode`. Its source maps each byte, in order, to the table
/// entries `b"0123456789abcdef"[byte >> 4]` and `[byte & 0x0F]`: two
/// lowercase digits, high half first, which is `hex_lower`.
#[verifier::external_body]
fn hex_encode(bytes: &[u8]) -> (s: String)
    ensures
        s@ == hex_lower(bytes@),
{
    hex::encode(bytes)
}

/// The values of a new account row: its name, its password hash, and its
/// salt written in lowercase hexadecimal.
#[derive(Debug)]
pub struct NewAccount {
    pub username: String,
    pub password_hash: String,
    pub salt: String,
}

/// The row that records a new account with the given name, password hash and salt.
pub fn new_account(username: &str, password_hash: &str, salt: &[u8]) -> (r: NewAccount)
    ensures
        r.username@ == username@,
        r.password_hash@ == password_hash@,
        r.salt@ == hex_lower(salt@),
{
    NewAccount {
        username: username.to_string(),
        password_hash: password_hash.to_string(),
        salt: hex_encode(salt),
    }
}

/// The clauses of columns without `$` hold one placeholder each.
proof fn lemma_assignment_list_placeholders(columns: Seq<Seq<char>>)
    requires
        forall|k: int, i: int| 0 <= k < columns.len() && 0 <= i < columns[k].len() ==> #[trigger] columns[k][i] != '$',
    ensures
        placeholder_count(assignment_list(columns)) == columns.len(),
    decreases columns.len(),
{
    reveal_strlit(" = $");
    reveal_strlit(", ");
    if columns.len() > 0 {
        let last = columns.last();
        let k = columns.len() as int;
        assert forall|i: int| 0 <= i < last.len() implies last[i] != '$' by {
            assert(columns[k - 1][i] != '$');
        }
        lemma_no_placeholder(last);
        lemma_placeholder_count_concat(last, " = $"@);
        assert(placeholder_count(" = $"@) == 1) by {
            reveal_strlit(" = ");
            lemma_no_placeholder(" = "@);
            assert(" = $"@ == " = "@.push('$')) by {
                reveal_strlit(" = ");
            }
            assert(" = $"@.drop_last() =~= " = "@) by {
                reveal_strlit(" = ");
            }
        }
        lemma_placeholder_count_concat(last + " = $"@, decimal(k));
        lemma_decimal_no_placeholder(k);
        if columns.len() == 1 {
        } else {
            lemma_assignment_list_placeholders(columns.drop_last());
            lemma_no_placeholder(", "@);
            lemma_placeholder_count_concat(assignment_list(columns.drop_last()), ", "@);
            lemma_placeholder_count_concat(assignment_list(columns.drop_last()) + ", "@, assignment_clause(last, k));
        }
    }
}

/// Every placeholder of the statement that updates personal information has
/// its parameter: the statement holds as many `$` signs as it binds values.
pub proof fn law_user_info_placeholders_match_params(update: UserInfoUpdate, stored: UserInfo, account_id: i32)
    ensures
        placeholder_count(user_info_update_text(user_info_assignments(update, stored)))
            == assignment_params(user_info_assignments(update, stored)).push(SqlParam::Int(account_id)).len(),
{
    reveal_strlit("gender");
    reveal_strlit("city");
    reveal_strlit("age");
    reveal_strlit("email");
    reveal_strlit("UPDATE user_info SET ");
    reveal_strlit(" WHERE account_id = $");
    let a = user_info_assignments(update, stored);
    let cols = assignment_columns(a);
    assert forall|k: int, i: int| 0 <= k < cols.len() && 0 <= i < cols[k].len() implies #[trigger] cols[k][i] != '$' by {
        assert(cols[k] == "gender"@ || cols[k] == "city"@ || cols[k] == "age"@ || cols[k] == "email"@);
    }
    lemma_assignment_list_placeholders(cols);
    lemma_no_placeholder("UPDATE user_info SET "@);
    let tail = " WHERE account_id = $"@;
    assert(placeholder_count(tail) == 1) by {
        assert(tail.drop_last() =~= " WHERE account_id = "@) by {
            reveal_strlit(" WHERE account_id = ");
        }
        assert forall|i: int| 0 <= i < tail.drop_last().len() implies tail.drop_last()[i] != '$' by {
            reveal_strlit(" WHERE account_id = ");
        }
        lemma_no_placeholder(tail.drop_last());
    }
    lemma_decimal_no_placeholder(a.len() + 1int);
    lemma_placeholder_count_concat("UPDATE user_info SET "@, assignment_list(cols));
    lemma_placeholder_count_concat("UPDATE user_info SET "@ + assignment_list(cols), tail);
    lemma_placeholder_count_concat("UPDATE user_info SET "@ + assignment_list(cols) + tail, decimal(a.len() + 1int));
}

/// The stored record after its column `column` is set to `p`: one of gender,
/// city and email to a text, or age to an integer.
pub open spec fn assign_column(r: UserInfo, column: Seq<char>, p: SqlParam) -> UserInfo {
    match p {
        SqlParam::Text(s) => if column == "gender"@ {
            UserInfo { gender: Some(s), ..r }
        } else if column == "city"@ {
            UserInfo { city: Some(s), ..r }
        } else if column == "email"@ {
            UserInfo { email: Some(s), ..r }
        } else {
            r
        },
        SqlParam::Int(n) => if column == "age"@ {
            UserInfo { age: Some(n), ..r }
        } else {
            r
        },
    }
}

/// The stored record after the assignments of an update, in order.
pub open spec fn apply_assignments(r: UserInfo, a: Seq<(Seq<char>, SqlParam)>) -> UserInfo
    decreases a.len(),
{
    if a.len() == 0 {
        r
    } else {
        assign_column(apply_assignments(r, a.drop_last()), a.last().0, a.last().1)
    }
}

/// The personal information stored after a write planned by
/// `plan_user_info_update`: with none stored, the inserted record (gender,
/// city, age and email as given, no name); otherwise the stored record with
/// the assignments of the update statement applied.
pub open spec fn user_info_after(update: UserInfoUpdate, stored: Option<UserInfo>) -> UserInfo {
    match stored {
        None => UserInfo { age: update.age, city: update.city, email: update.email, name: None, gender: update.gender },
        Some(o) => apply_assignments(o, user_info_assignments(update, o)),
    }
}

proof fn lemma_apply_concat(r: UserInfo, a: Seq<(Seq<char>, SqlParam)>, b: Seq<(Seq<char>, SqlParam)>)
    ensures
        apply_assignments(r, a + b) == apply_assignments(apply_assignments(r, a), b),
    decreases b.len(),
{
    if b.len() == 0 {
        assert(a + b =~= a);
    } else {
        assert((a + b).drop_last() =~= a + b.drop_last());
        lemma_apply_concat(r, a, b.drop_last());
    }
}

proof fn lemma_apply_one(r: UserInfo, x: (Seq<char>, SqlParam))
    ensures
        apply_assignments(r, seq![x]) == assign_column(r, x.0, x.1),
{
    assert(seq![x].drop_last() =~= Seq::<(Seq<char>, SqlParam)>::empty());
    assert(apply_assignments(r, Seq::<(Seq<char>, SqlParam)>::empty()) == r);
    assert(seq![x].last() == x);
}

/// The record that updating `stored` gives: each of gender, city, age and
/// email takes its given value, or else keeps its stored one; the name is
/// kept.
proof fn lemma_user_info_after_stored(update: UserInfoUpdate, o: UserInfo)
    ensures
        user_info_after(update, Some(o)) == (UserInfo {
            gender: chosen(update.gender, o.gender),
            city: chosen(update.city, o.city),
            age: chosen(update.age, o.age),
            email: chosen(update.email, o.email),
            name: o.name,
        }),
{
    reveal_strlit("gender");
    reveal_strlit("city");
    reveal_strlit("age");
    reveal_strlit("email");
    let g = text_assignment("gender"@, chosen(update.gender, o.gender));
    let c = text_assignment("city"@, chosen(update.city, o.city));
    let a = int_assignment("age"@, chosen(update.age, o.age));
    let e = text_assignment("email"@, chosen(update.email, o.email));
    lemma_apply_concat(o, g + c + a, e);
    lemma_apply_concat(o, g + c, a);
    lemma_apply_concat(o, g, c);
    assert(apply_assignments(o, Seq::<(Seq<char>, SqlParam)>::empty()) == o);
    let empty = Seq::<(Seq<char>, SqlParam)>::empty();
    assert("city"@ != "gender"@) by {
        assert("city"@.len() != "gender"@.len());
    }
    assert("email"@ != "gender"@ && "email"@ != "city"@) by {
        assert("email"@.len() != "gender"@.len());
        assert("email"@.len() != "city"@.len());
    }
    assert(apply_assignments(o, g + c + a + e) == apply_assignments(apply_assignments(apply_assignments(apply_assignments(o, g), c), a), e));
    assert(user_info_assignments(update, o) == g + c + a + e);
    let r1 = apply_assignments(o, g);
    if g.len() > 0 {
        lemma_apply_one(o, g[0]);
        assert(g =~= seq![g[0]]);
    } else {
        assert(g =~= empty);
    }
    assert(r1 == UserInfo { gender: chosen(update.gender, o.gender), ..o });
    let r2 = apply_assignments(r1, c);
    if c.len() > 0 {
        lemma_apply_one(r1, c[0]);
        assert(c =~= seq![c[0]]);
    } else {
        assert(c =~= empty);
    }
    assert(r2 == UserInfo { city: chosen(update.city, o.city), ..r1 });
    let r3 = apply_assignments(r2, a);
    if a.len() > 0 {
        lemma_apply_one(r2, a[0]);
        assert(a =~= seq![a[0]]);
    } else {
        assert(a =~= empty);
    }
    assert(r3 == UserInfo { age: chosen(update.age, o.age), ..r2 });
    let r4 = apply_assignments(r3, e);
    if e.len() > 0 {
        lemma_apply_one(r3, e[0]);
        assert(e =~= seq![e[0]]);
    } else {
        assert(e =~= empty);
    }
    assert(r4 == UserInfo { email: chosen(update.email, o.email), ..r3 });
}

/// Writing the same personal information twice leaves the record as the
/// first write left it: whatever was stored before, the second write's
/// statement sets each column to the value it already holds. The record
/// after a write keeps, of each field, the value given or else the stored one.
pub proof fn law_repeated_user_info_update_changes_nothing(update: UserInfoUpdate, stored: Option<UserInfo>)
    ensures
        user_info_after(update, Some(user_info_after(update, stored))) == user_info_after(update, stored),
        stored matches Some(o) ==> user_info_after(update, stored) == (UserInfo {
            gender: chosen(update.gender, o.gender),
            city: chosen(update.city, o.city),
            age: chosen(update.age, o.age),
            email: chosen(update.email, o.email),
            name: o.name,
        }),
{
    let r1 = user_info_after(update, stored);
    lemma_user_info_after_stored(update, r1);
    if let Some(o) = stored {
        lemma_user_info_after_stored(update, o);
    }
}

} // verus!
