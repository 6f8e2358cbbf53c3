use vstd::prelude::*;
use vstd::string::*;
use vstd::utf8::is_ascii_chars;
use vstd::std_specs::iter::IteratorSpec;

use crate::messages::{kind_audience, MessageKind, UserRole};

verus! {

/// Decides whether a message of type `msg` may be delivered to a session of
/// role `role`: the last filter before a message leaves the server, so that a
/// routing mistake cannot leak information to the wrong role.
pub fn should_receive_message(role: &UserRole, msg: &MessageKind) -> (ok: bool)
    ensures
        ok == kind_audience(*msg).contains(*role),
{
    match msg {
        MessageKind::Chat | MessageKind::Ping => true,
        MessageKind::WashStatusUpdate | MessageKind::NewSale => {
            matches!(role, UserRole::Admin | UserRole::Supervisor | UserRole::Cajero)
        },
        MessageKind::SupervisorSalesSummary | MessageKind::SupervisorSaleStateChanged => {
            matches!(role, UserRole::Supervisor)
        },
        MessageKind::UnpaidSalesAlert => matches!(role, UserRole::Supervisor | UserRole::Cajero),
        MessageKind::ExpiredCombosAlert | MessageKind::ExpiringCombosAlert => {
            matches!(role, UserRole::Admin | UserRole::Supervisor)
        },
        MessageKind::PaymentReceived => matches!(role, UserRole::Admin | UserRole::Cajero),
        MessageKind::PendingPaymentReminder | MessageKind::CashierDailySummary => {
            matches!(role, UserRole::Cajero)
        },
        MessageKind::VehiclePending
        | MessageKind::VehicleInProgress
        | MessageKind::VehicleReady
        | MessageKind::VehicleCanceled
        | MessageKind::AssignedLavador => {
            matches!(role, UserRole::Cliente)
        },
        MessageKind::NewAssignment => {
            matches!(role, UserRole::Supervisor)
        },
        MessageKind::StockAlert | MessageKind::UrgentPurchase => {
            matches!(role, UserRole::Admin)
        },
    }
}

/// The position of the first `c` in `s`, or the length of `s` when there is none.
pub open spec fn position_of(s: Seq<char>, c: char) -> int
    decreases s.len(),
{
    if s.len() == 0 {
        0
    } else if s[0] == c {
        0
    } else {
        1 + position_of(s.drop_first(), c)
    }
}

/// `position_of` lies within `s`, or just past its end.
pub proof fn lemma_position_bounds(s: Seq<char>, c: char)
    ensures
        0 <= position_of(s, c) <= s.len(),
    decreases s.len(),
{
    if s.len() > 0 && s[0] != c {
        lemma_position_bounds(s.drop_first(), c);
    }
}

/// `position_of` is the first `c`, when `k` is the first `c` or the end of `s`.
pub proof fn lemma_position_at(s: Seq<char>, c: char, k: int)
    requires
        0 <= k <= s.len(),
        forall|j: int| 0 <= j < k ==> s[j] != c,
        k == s.len() || s[k] == c,
    ensures
        position_of(s, c) == k,
    decreases k,
{
    if k > 0 {
        assert(s[0] != c);
        lemma_position_at(s.drop_first(), c, k - 1);
    }
}

/// The value of the first `key=value` pair of a query string whose key is
/// `role`. Pairs are separated by `&`; a pair is split at its first `=`, and a
/// pair without `=` is skipped.
pub open spec fn role_value(q: Seq<char>) -> Option<Seq<char>>
    decreases q.len(),
{
    let end = position_of(q, '&');
    proof {
        lemma_position_bounds(q, '&');
    }
    let pair = q.take(end);
    let eq = position_of(pair, '=');
    if eq < pair.len() && pair.take(eq) == "role"@ {
        Some(pair.skip(eq + 1))
    } else if end < q.len() {
        role_value(q.skip(end + 1))
    } else {
        None
    }
}

/// The Unicode lower-case form of `s`, as std's `str::to_lowercase` computes it.
pub uninterp spec fn lowercased(s: Seq<char>) -> Seq<char>;

/// The ASCII lower-case form of `s`: `A`..`Z` become `a`..`z`, every other
/// character is kept.
pub open spec fn ascii_lowercase(s: Seq<char>) -> Seq<char> {
    s.map_values(|c: char| if 'A' <= c && c <= 'Z' { ((c as u32) + 32) as char } else { c })
}

/// Lower-cases `s` with std's `str::to_lowercase`. The result is a function
/// of `s` alone (the Unicode case tables of std); only for an ASCII string is
/// it stated, as the ASCII lower-case form, which is what the Unicode
/// lower-case mapping gives on ASCII characters.
#[verifier::external_body]
fn to_lowercase(s: &str) -> (lower: String)
    ensures
        lower@ == lowercased(s@),
        is_ascii_chars(s@) ==> lower@ == ascii_lowercase(s@),
{
    s.to_lowercase()
}

/// The role whose lower-case name is `name`.
pub open spec fn role_named(name: Seq<char>) -> Option<UserRole> {
    if name == "admin"@ {
        Some(UserRole::Admin)
    } else if name == "supervisor"@ {
        Some(UserRole::Supervisor)
    } else if name == "cliente"@ {
        Some(UserRole::Cliente)
    } else if name == "cajero"@ {
        Some(UserRole::Cajero)
    } else {
        None
    }
}

/// The role a connection asks for with the query string `q`: the role named
/// by the lower-cased value of its `role` pair, and `Supervisor` when there is
/// no such pair or it names no role.
pub open spec fn requested_role(q: Seq<char>) -> UserRole {
    match role_value(q) {
        Some(v) => match role_named(lowercased(v)) {
            Some(r) => r,
            None => UserRole::Supervisor,
        },
        None => UserRole::Supervisor,
    }
}

/// The role with the given lower-case name (`admin`, `supervisor`, `cliente`
/// or `cajero`), if any.
pub fn role_from_name(name: &str) -> (role: Option<UserRole>)
    ensures
        role == role_named(name@),
{
    let name = String::from_str(name);
    if name == String::from_str("admin") {
        Some(UserRole::Admin)
    } else if name == String::from_str("supervisor") {
        Some(UserRole::Supervisor)
    } else if name == String::from_str("cliente") {
        Some(UserRole::Cliente)
    } else if name == String::from_str("cajero") {
        Some(UserRole::Cajero)
    } else {
        None
    }
}

fn chars_of(s: &str) -> (v: Vec<char>)
    ensures
        v@ == s@,
{
    broadcast use vstd::string::group_string_axioms;

    let mut v: Vec<char> = Vec::new();
    for c in it: s.chars()
        invariant
            it.seq() == s@,
            v@ == it.seq().take(it.index()),
    {
        v.push(c);
        assert(v@ =~= it.seq().take(it.index() + 1));
    }
    assert(v@ =~= s@);
    v
}

/// The first position in `from..to` that holds `c`, or `to`.
fn first_from(v: &Vec<char>, c: char, from: usize, to: usize) -> (k: usize)
    requires
        from <= to <= v@.len(),
    ensures
        from <= k <= to,
        forall|j: int| from <= j < k ==> v@[j] != c,
        k == to || v@[k as int] == c,
{
    let mut k = from;
    while k < to
        invariant
            from <= k <= to,
            to <= v@.len(),
            forall|j: int| from <= j < k ==> v@[j] != c,
        decreases to - k,
    {
        if v[k] == c {
            return k;
        }
        k = k + 1;
    }
    k
}

/// The role a WebSocket connection asks for in its query string, as in
/// `/ws?role=cajero`: the role named by the lower-cased value of the first
/// `role` pair, and `Supervisor` when there is none or it names no role.
pub fn role_from_query(query: &str) -> (role: UserRole)
    ensures
        role == requested_role(query@),
        role_value(query@) matches Some(v) ==> (is_ascii_chars(v) ==> role == match role_named(
            ascii_lowercase(v),
        ) {
            Some(r) => r,
            None => UserRole::Supervisor,
        }),
{
    let q = chars_of(query);
    let n = q.len();
    let mut start: usize = 0;
    assert(query@.skip(0) =~= query@);
    loop
        invariant
            start <= n,
            n == q@.len(),
            q@ == query@,
            role_value(query@) == role_value(query@.skip(start as int)),
        decreases n - start,
    {
        let end = first_from(&q, '&', start, n);
        let eq = first_from(&q, '=', start, end);
        let ghost rest = query@.skip(start as int);
        let ghost pair = rest.take(end - start);
        proof {
            reveal_strlit("role");
            lemma_position_at(rest, '&', end - start);
            lemma_position_at(pair, '=', eq - start);
        }
        if eq < end && eq - start == 4 && q[start] == 'r' && q[start + 1] == 'o' && q[start + 2]
            == 'l' && q[start + 3] == 'e' {
            assert(pair.take(eq - start) =~= "role"@);
            let value = query.substring_char(eq + 1, end);
            assert(value@ =~= pair.skip(eq - start + 1));
            let lowered = to_lowercase(value);
            return match role_from_name(lowered.as_str()) {
                Some(r) => r,
                None => UserRole::Supervisor,
            };
        }
        proof {
            if eq < end && pair.take(eq - start) == "role"@ {
                let key = pair.take(eq - start);
                assert(key.len() == 4);
                assert(key[0] == q@[start as int]);
                assert(key[1] == q@[start + 1]);
                assert(key[2] == q@[start + 2]);
                assert(key[3] == q@[start + 3]);
                assert(key[0] == 'r' && key[1] == 'o' && key[2] == 'l' && key[3] == 'e');
            }
        }
        if end == n {
            return UserRole::Supervisor;
        }
        assert(rest.skip(end - start + 1) =~= query@.skip(end + 1));
        start = end + 1;
    }
}

} // verus!
