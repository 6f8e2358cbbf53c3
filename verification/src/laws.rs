use vstd::prelude::*;

use crate::messages::{kind_audience, notice_kind, DispatchView, MessageKind, NoticeView, UserRole};
use crate::monitor::{
    arrival_dispatches, change_dispatches, client_text, plate_text, to, poll_result, sale_ids, sales_dispatches, summary_dispatches,
    status_count, statuses_of, summary_of, lemma_counts_total, MonitorView, fresh_positions,
    combo_dispatches,
};
use crate::models::{Sale, StatusPayments, WashingStatus};
use crate::broadcast::{copies_sent, members};
use crate::server::{Handoff, SessionInfo, WashServer};
use crate::text::{decimal, digits};
use crate::session::{lemma_position_at, lemma_position_bounds, position_of, requested_role, role_value};
use tokio::sync::mpsc::UnboundedSender;

verus! {

/// The roles the monitor broadcasts each type of notification to.
pub open spec fn route_of(kind: MessageKind) -> Seq<UserRole> {
    match kind {
        MessageKind::NewSale | MessageKind::UnpaidSalesAlert => seq![
            UserRole::Supervisor,
            UserRole::Cajero,
        ],
        MessageKind::PendingPaymentReminder | MessageKind::CashierDailySummary => seq![
            UserRole::Cajero,
        ],
        MessageKind::VehiclePending
        | MessageKind::VehicleInProgress
        | MessageKind::VehicleReady
        | MessageKind::VehicleCanceled => seq![UserRole::Cliente],
        _ => seq![UserRole::Supervisor],
    }
}

/// Whether a session of `role` ends up showing the dispatched notification:
/// it is broadcast to `role` and the session filter lets it through.
pub open spec fn delivered(d: DispatchView, role: UserRole) -> bool {
    d.roles.contains(role) && kind_audience(notice_kind(d.message)).contains(role)
}

/// Every dispatch of `ds` goes to the roles fixed for its type.
pub open spec fn routed(ds: Seq<DispatchView>) -> bool {
    forall|i: int| 0 <= i < ds.len() ==> (#[trigger] ds[i]).roles == route_of(notice_kind(ds[i].message))
}

proof fn lemma_routed_concat(a: Seq<DispatchView>, b: Seq<DispatchView>)
    requires
        routed(a),
        routed(b),
    ensures
        routed(a + b),
{
    assert forall|i: int| 0 <= i < (a + b).len() implies (#[trigger] (a + b)[i]).roles == route_of(
        notice_kind((a + b)[i].message),
    ) by {
        if i < a.len() {
            assert((a + b)[i] == a[i]);
        } else {
            assert((a + b)[i] == b[i - a.len()]);
        }
    }
}

proof fn lemma_sale_routed(last: Map<i32, WashingStatus>, sent: Set<i32>, sale: Sale)
    ensures
        routed(change_dispatches(last, sale)),
        routed(arrival_dispatches(sent, sale)),
{
}

proof fn lemma_sales_routed(last: Map<i32, WashingStatus>, sent: Set<i32>, sales: Seq<Sale>)
    ensures
        routed(sales_dispatches(last, sent, sales)),
    decreases sales.len(),
{
    if sales.len() > 0 {
        let before = sales.drop_last();
        lemma_sales_routed(last, sent, before);
        lemma_sale_routed(last, sent + sale_ids(before), sales.last());
        lemma_routed_concat(sales_dispatches(last, sent, before), change_dispatches(last, sales.last()));
        lemma_routed_concat(
            sales_dispatches(last, sent, before) + change_dispatches(last, sales.last()),
            arrival_dispatches(sent + sale_ids(before), sales.last()),
        );
    }
}

/// Each notification of a poll is broadcast to the roles fixed for its type:
/// supervisors get state updates, state changes and summaries; supervisors
/// and cashiers get new sales and unpaid alerts; cashiers get payment
/// reminders and daily summaries; clients get the news about their vehicle.
pub proof fn law_poll_routing(st: MonitorView, sales: Seq<Sale>)
    ensures
        routed(poll_result(st, sales).1),
{
    if sales.len() > 0 {
        lemma_sales_routed(st.last, st.sent, sales);
        let s = summary_of(sales);
        assert(routed(summary_dispatches(s)));
        assert(routed(Seq::<DispatchView>::empty()));
        lemma_routed_concat(
            sales_dispatches(st.last, st.sent, sales),
            if st.summary == Some(s) {
                Seq::<DispatchView>::empty()
            } else {
                summary_dispatches(s)
            },
        );
    }
}

/// The session filter never discards a notification of the monitor: every
/// role a poll broadcasts to is allowed to receive it.
pub proof fn law_poll_passes_filter(st: MonitorView, sales: Seq<Sale>, i: int, role: UserRole)
    requires
        0 <= i < poll_result(st, sales).1.len(),
        poll_result(st, sales).1[i].roles.contains(role),
    ensures
        delivered(poll_result(st, sales).1[i], role),
{
    law_poll_routing(st, sales);
}

/// A cashier is never shown the supervisors' sales summary nor a
/// vehicle-ready notice coming from a poll.
pub proof fn law_cashier_sees_no_summary_nor_ready(st: MonitorView, sales: Seq<Sale>, i: int)
    requires
        0 <= i < poll_result(st, sales).1.len(),
        delivered(poll_result(st, sales).1[i], UserRole::Cajero),
    ensures
        notice_kind(poll_result(st, sales).1[i].message) != MessageKind::SupervisorSalesSummary,
        notice_kind(poll_result(st, sales).1[i].message) != MessageKind::VehicleReady,
{
    law_poll_routing(st, sales);
}

/// An administrator is shown none of the operational sales notifications of
/// a poll.
pub proof fn law_admin_sees_no_poll_notice(st: MonitorView, sales: Seq<Sale>, i: int)
    requires
        0 <= i < poll_result(st, sales).1.len(),
    ensures
        !delivered(poll_result(st, sales).1[i], UserRole::Admin),
{
    law_poll_routing(st, sales);
}

/// A client is shown only the notices about its vehicle.
pub proof fn law_client_sees_only_vehicle_news(kind: MessageKind)
    requires
        kind_audience(kind).contains(UserRole::Cliente),
    ensures
        kind == MessageKind::VehiclePending || kind == MessageKind::VehicleInProgress || kind
            == MessageKind::VehicleReady || kind == MessageKind::VehicleCanceled || kind
            == MessageKind::AssignedLavador || kind == MessageKind::Chat || kind == MessageKind::Ping,
{
}

/// Whether `d` announces the sale `id` as new (its state update or its
/// new-sale notice).
pub open spec fn announces(d: DispatchView, id: i32) -> bool {
    match d.message {
        NoticeView::WashStatusUpdate { sale_id, .. } => sale_id == id,
        NoticeView::NewSale { sale_id, .. } => sale_id == id,
        _ => false,
    }
}

proof fn lemma_announced_not_sent(
    last: Map<i32, WashingStatus>,
    sent: Set<i32>,
    sales: Seq<Sale>,
    i: int,
    id: i32,
)
    requires
        0 <= i < sales_dispatches(last, sent, sales).len(),
        announces(sales_dispatches(last, sent, sales)[i], id),
    ensures
        !sent.contains(id),
    decreases sales.len(),
{
    let before = sales.drop_last();
    let sale = sales.last();
    let head = sales_dispatches(last, sent, before);
    let changes = change_dispatches(last, sale);
    let arrivals = arrival_dispatches(sent + sale_ids(before), sale);
    assert(sales_dispatches(last, sent, sales) == head + changes + arrivals);
    if i < head.len() {
        assert(sales_dispatches(last, sent, sales)[i] == head[i]);
        lemma_announced_not_sent(last, sent, before, i, id);
    } else if i < head.len() + changes.len() {
        assert(sales_dispatches(last, sent, sales)[i] == changes[i - head.len()]);
    } else {
        assert(sales_dispatches(last, sent, sales)[i] == arrivals[i - head.len() - changes.len()]);
        assert(!(sent + sale_ids(before)).contains(sale.id));
    }
}

/// A sale is announced as new at most once: once a poll has seen the sale
/// `id`, no later poll announces it again, whatever the table then holds.
pub proof fn law_sale_announced_once(st: MonitorView, first: Seq<Sale>, next: Seq<Sale>, id: i32, i: int)
    requires
        sale_ids(first).contains(id),
        0 <= i < poll_result(poll_result(st, first).0, next).1.len(),
    ensures
        !announces(poll_result(poll_result(st, first).0, next).1[i], id),
{
    let st1 = poll_result(st, first).0;
    assert(first.len() > 0);
    assert(st1.sent.contains(id));
    if next.len() > 0 {
        let out = poll_result(st1, next).1;
        let body = sales_dispatches(st1.last, st1.sent, next);
        let s = summary_of(next);
        let tail = if st1.summary == Some(s) {
            Seq::<DispatchView>::empty()
        } else {
            summary_dispatches(s)
        };
        assert(out == body + tail);
        if i < body.len() {
            assert(out[i] == body[i]);
            if announces(body[i], id) {
                lemma_announced_not_sent(st1.last, st1.sent, next, i, id);
            }
        } else {
            assert(out[i] == tail[i - body.len()]);
        }
    }
}

/// No two sales of the sequence share an id.
pub open spec fn distinct_ids(sales: Seq<Sale>) -> bool {
    forall|i: int, j: int|
        0 <= i < sales.len() && 0 <= j < sales.len() && #[trigger] sales[i].id == #[trigger] sales[j].id
            ==> i == j
}

proof fn lemma_statuses_of_distinct(sales: Seq<Sale>, k: int)
    requires
        distinct_ids(sales),
        0 <= k < sales.len(),
    ensures
        statuses_of(sales).contains_key(sales[k].id),
        statuses_of(sales)[sales[k].id] == sales[k].stateuswashing,
    decreases sales.len(),
{
    let before = sales.drop_last();
    if k < sales.len() - 1 {
        assert(before[k] == sales[k]);
        assert(distinct_ids(before)) by {
            assert forall|i: int, j: int|
                0 <= i < before.len() && 0 <= j < before.len() && #[trigger] before[i].id
                    == #[trigger] before[j].id implies i == j by {
                assert(before[i] == sales[i] && before[j] == sales[j]);
            }
        }
        lemma_statuses_of_distinct(before, k);
        assert(sales[k].id != sales.last().id);
    }
}

proof fn lemma_settled_sales_are_quiet(
    last: Map<i32, WashingStatus>,
    sent: Set<i32>,
    sales: Seq<Sale>,
)
    requires
        forall|k: int|
            0 <= k < sales.len() ==> {
                &&& last.contains_key(#[trigger] sales[k].id)
                &&& last[sales[k].id] == sales[k].stateuswashing
                &&& sent.contains(sales[k].id)
            },
    ensures
        sales_dispatches(last, sent, sales) == Seq::<DispatchView>::empty(),
    decreases sales.len(),
{
    if sales.len() > 0 {
        let before = sales.drop_last();
        assert forall|k: int| 0 <= k < before.len() implies {
            &&& last.contains_key(#[trigger] before[k].id)
            &&& last[before[k].id] == before[k].stateuswashing
            &&& sent.contains(before[k].id)
        } by {
            assert(before[k] == sales[k]);
        }
        lemma_settled_sales_are_quiet(last, sent, before);
        assert(sales.last() == sales[sales.len() - 1]);
        assert((sent + sale_ids(before)).contains(sales.last().id));
        assert(sales_dispatches(last, sent, sales) =~= Seq::<DispatchView>::empty());
    }
}

/// Polling a table that has not changed since the previous poll broadcasts
/// nothing (sale ids being unique, as the table's key makes them).
pub proof fn law_unchanged_table_is_quiet(st: MonitorView, sales: Seq<Sale>)
    requires
        distinct_ids(sales),
    ensures
        poll_result(poll_result(st, sales).0, sales).1 == Seq::<DispatchView>::empty(),
{
    let st1 = poll_result(st, sales).0;
    if sales.len() > 0 {
        assert forall|k: int| 0 <= k < sales.len() implies {
            &&& st1.last.contains_key(#[trigger] sales[k].id)
            &&& st1.last[sales[k].id] == sales[k].stateuswashing
            &&& st1.sent.contains(sales[k].id)
        } by {
            lemma_statuses_of_distinct(sales, k);
            assert(sale_ids(sales).contains(sales[k].id));
        }
        lemma_settled_sales_are_quiet(st1.last, st1.sent, sales);
        assert(poll_result(st1, sales).1 =~= Seq::<DispatchView>::empty());
    }
}

/// Whether `ds` holds no summary notification.
pub open spec fn summary_free(ds: Seq<DispatchView>) -> bool {
    forall|i: int|
        0 <= i < ds.len() ==> {
            let k = notice_kind((#[trigger] ds[i]).message);
            k != MessageKind::SupervisorSalesSummary && k != MessageKind::CashierDailySummary && k
                != MessageKind::UnpaidSalesAlert
        }
}

proof fn lemma_summary_free_concat(a: Seq<DispatchView>, b: Seq<DispatchView>)
    requires
        summary_free(a),
        summary_free(b),
    ensures
        summary_free(a + b),
{
    assert forall|i: int| 0 <= i < (a + b).len() implies {
        let k = notice_kind((#[trigger] (a + b)[i]).message);
        k != MessageKind::SupervisorSalesSummary && k != MessageKind::CashierDailySummary && k
            != MessageKind::UnpaidSalesAlert
    } by {
        if i < a.len() {
            assert((a + b)[i] == a[i]);
        } else {
            assert((a + b)[i] == b[i - a.len()]);
        }
    }
}

proof fn lemma_sales_summary_free(last: Map<i32, WashingStatus>, sent: Set<i32>, sales: Seq<Sale>)
    ensures
        summary_free(sales_dispatches(last, sent, sales)),
    decreases sales.len(),
{
    if sales.len() > 0 {
        let before = sales.drop_last();
        lemma_sales_summary_free(last, sent, before);
        assert(summary_free(change_dispatches(last, sales.last())));
        assert(summary_free(arrival_dispatches(sent + sale_ids(before), sales.last())));
        lemma_summary_free_concat(
            sales_dispatches(last, sent, before),
            change_dispatches(last, sales.last()),
        );
        lemma_summary_free_concat(
            sales_dispatches(last, sent, before) + change_dispatches(last, sales.last()),
            arrival_dispatches(sent + sale_ids(before), sales.last()),
        );
    }
}

/// The summaries are broadcast only when the washing-state counters differ
/// from the last summary broadcast.
pub proof fn law_summary_only_on_change(st: MonitorView, sales: Seq<Sale>)
    requires
        st.summary == Some(summary_of(sales)),
    ensures
        summary_free(poll_result(st, sales).1),
{
    if sales.len() > 0 {
        lemma_sales_summary_free(st.last, st.sent, sales);
        assert(poll_result(st, sales).1 =~= sales_dispatches(st.last, st.sent, sales));
    }
}

/// The summary of a poll counts every sale of the table exactly once: its
/// four counters are the numbers of sales waiting, being washed, completed
/// and cancelled, and they add up to the number of sales, which is the number
/// of transactions the cashier's summary reports.
pub proof fn law_summary_counts_every_sale(sales: Seq<Sale>)
    requires
        sales.len() <= i64::MAX,
    ensures
        summary_of(sales).0 == status_count(sales, WashingStatus::EnEspera),
        summary_of(sales).1 == status_count(sales, WashingStatus::EnProceso),
        summary_of(sales).2 == status_count(sales, WashingStatus::Completado),
        summary_of(sales).3 == status_count(sales, WashingStatus::Cancelado),
        summary_of(sales).0 + summary_of(sales).1 + summary_of(sales).2 + summary_of(sales).3
            == sales.len(),
{
    lemma_counts_total(sales);
}

/// After a session connects, a broadcast to a role reaches it exactly when
/// the role is the one it connected with.
pub proof fn law_connected_session_reached<M>(
    before: WashServer<M>,
    after: WashServer<M>,
    id: usize,
    tx: UnboundedSender<M>,
    role: UserRole,
    wanted: Set<UserRole>,
)
    requires
        after.registry() == before.registry().insert(id, SessionInfo { tx, role }),
    ensures
        members(after.roles(), wanted).contains(id) == wanted.contains(role),
{
}

/// After a session disconnects, no broadcast reaches it.
pub proof fn law_disconnected_session_unreached<M>(
    before: WashServer<M>,
    after: WashServer<M>,
    id: usize,
    wanted: Set<UserRole>,
)
    requires
        after.registry() == before.registry().remove(id),
    ensures
        !members(after.roles(), wanted).contains(id),
{
}

/// Connecting or disconnecting one session changes whether a broadcast
/// reaches no other session.
pub proof fn law_other_sessions_unaffected<M>(
    before: WashServer<M>,
    after: WashServer<M>,
    id: usize,
    other: usize,
    tx: UnboundedSender<M>,
    role: UserRole,
    wanted: Set<UserRole>,
)
    requires
        other != id,
        after.registry() == before.registry().insert(id, SessionInfo { tx, role })
            || after.registry() == before.registry().remove(id),
    ensures
        members(after.roles(), wanted).contains(other) == members(before.roles(), wanted).contains(
            other,
        ),
{
}

proof fn lemma_position_found(s: Seq<char>, c: char)
    requires
        position_of(s, c) < s.len(),
    ensures
        s[position_of(s, c)] == c,
    decreases s.len(),
{
    if s.len() > 0 && s[0] != c {
        lemma_position_bounds(s.drop_first(), c);
        lemma_position_found(s.drop_first(), c);
    }
}

proof fn lemma_role_value_mentions_key(q: Seq<char>)
    requires
        role_value(q) is Some,
    ensures
        exists|i: int| 0 <= i && i + 5 <= q.len() && #[trigger] q.subrange(i, i + 5) == "role="@,
    decreases q.len(),
{
    reveal_strlit("role");
    reveal_strlit("role=");
    let end = position_of(q, '&');
    lemma_position_bounds(q, '&');
    let pair = q.take(end);
    let eq = position_of(pair, '=');
    lemma_position_bounds(pair, '=');
    if eq < pair.len() && pair.take(eq) == "role"@ {
        lemma_position_found(pair, '=');
        assert(pair.take(eq).len() == 4);
        assert(q.subrange(0, 5) =~= "role="@) by {
            assert(q.subrange(0, 5)[0] == pair.take(eq)[0]);
            assert(q.subrange(0, 5)[1] == pair.take(eq)[1]);
            assert(q.subrange(0, 5)[2] == pair.take(eq)[2]);
            assert(q.subrange(0, 5)[3] == pair.take(eq)[3]);
            assert(q.subrange(0, 5)[4] == pair[eq]);
        }
        assert(0 <= 0int && 0int + 5 <= q.len() && q.subrange(0int, 0int + 5) == "role="@);
    } else {
        let rest = q.skip(end + 1);
        lemma_role_value_mentions_key(rest);
        let i = choose|i: int| 0 <= i && i + 5 <= rest.len() && #[trigger] rest.subrange(i, i + 5) == "role="@;
        assert(end < q.len());
        let k = i + end + 1;
        assert(q.subrange(k, k + 5) =~= rest.subrange(i, i + 5));
        assert(0 <= k && k + 5 <= q.len() && q.subrange(k, k + 5) == "role="@);
    }
}

/// A connection whose query string never mentions `role=` gets the
/// supervisor role, the default.
pub proof fn law_missing_role_defaults_to_supervisor(q: Seq<char>)
    requires
        forall|i: int| 0 <= i && i + 5 <= q.len() ==> #[trigger] q.subrange(i, i + 5) != "role="@,
    ensures
        requested_role(q) == UserRole::Supervisor,
{
    if role_value(q) is Some {
        lemma_role_value_mentions_key(q);
    }
}

/// The notifications that a poll derives from the sale at position `k`.
pub open spec fn sale_part(last: Map<i32, WashingStatus>, sent: Set<i32>, sales: Seq<Sale>, k: int) -> Seq<DispatchView> {
    change_dispatches(last, sales[k]) + arrival_dispatches(sent + sale_ids(sales.take(k)), sales[k])
}

proof fn lemma_sale_part_contained(
    last: Map<i32, WashingStatus>,
    sent: Set<i32>,
    sales: Seq<Sale>,
    k: int,
    d: DispatchView,
)
    requires
        0 <= k < sales.len(),
        sale_part(last, sent, sales, k).contains(d),
    ensures
        sales_dispatches(last, sent, sales).contains(d),
    decreases sales.len(),
{
    let before = sales.drop_last();
    let head = sales_dispatches(last, sent, before);
    let part = sale_part(last, sent, sales, k);
    let j = choose|j: int| 0 <= j < part.len() && part[j] == d;
    if k == sales.len() - 1 {
        assert(sales.take(k) =~= before);
        assert(sales_dispatches(last, sent, sales) =~= head + part);
        assert((head + part)[head.len() + j] == d);
    } else {
        assert(before[k] == sales[k]);
        assert(before.take(k) =~= sales.take(k));
        assert(sale_part(last, sent, before, k) == part);
        lemma_sale_part_contained(last, sent, before, k, d);
        let i = choose|i: int| 0 <= i < head.len() && head[i] == d;
        let rest = change_dispatches(last, sales.last()) + arrival_dispatches(
            sent + sale_ids(before),
            sales.last(),
        );
        assert(sales_dispatches(last, sent, sales) =~= head + rest);
        assert((head + rest)[i] == d);
    }
}

proof fn lemma_poll_contains(st: MonitorView, sales: Seq<Sale>, k: int, d: DispatchView)
    requires
        0 <= k < sales.len(),
        sale_part(st.last, st.sent, sales, k).contains(d),
    ensures
        poll_result(st, sales).1.contains(d),
{
    lemma_sale_part_contained(st.last, st.sent, sales, k, d);
    let body = sales_dispatches(st.last, st.sent, sales);
    let i = choose|i: int| 0 <= i < body.len() && body[i] == d;
    let s = summary_of(sales);
    let tail = if st.summary == Some(s) {
        Seq::<DispatchView>::empty()
    } else {
        summary_dispatches(s)
    };
    assert(poll_result(st, sales).1 == body + tail);
    assert((body + tail)[i] == d);
}

/// A sale known at the previous poll whose washing state changed is reported
/// to supervisors with its previous and current state, and its client is
/// told that the vehicle is being washed, ready, or cancelled.
pub proof fn law_state_change_reported(st: MonitorView, sales: Seq<Sale>, k: int)
    requires
        0 <= k < sales.len(),
        st.last.contains_key(sales[k].id),
        st.last[sales[k].id] != sales[k].stateuswashing,
    ensures
        poll_result(st, sales).1.contains(
            to(
                NoticeView::SupervisorSaleStateChanged {
                    sale_id: sales[k].id,
                    estado_anterior: st.last[sales[k].id].label(),
                    estado_actual: sales[k].stateuswashing.label(),
                },
                seq![UserRole::Supervisor],
            ),
        ),
        sales[k].stateuswashing == WashingStatus::EnProceso ==> poll_result(st, sales).1.contains(
            to(
                NoticeView::VehicleInProgress {
                    placa: plate_text(sales[k].vehicleid),
                    nombre_servicio: "Lavado en proceso"@,
                },
                seq![UserRole::Cliente],
            ),
        ),
        sales[k].stateuswashing == WashingStatus::Completado ==> poll_result(st, sales).1.contains(
            to(
                NoticeView::VehicleReady {
                    placa: plate_text(sales[k].vehicleid),
                    nombre_servicio: "Lavado completado"@,
                },
                seq![UserRole::Cliente],
            ),
        ),
        sales[k].stateuswashing == WashingStatus::Cancelado ==> poll_result(st, sales).1.contains(
            to(
                NoticeView::VehicleCanceled {
                    placa: plate_text(sales[k].vehicleid),
                    nombre_servicio: "Lavado"@,
                    motivo: "Cancelado por el supervisor"@,
                },
                seq![UserRole::Cliente],
            ),
        ),
{
    let part = sale_part(st.last, st.sent, sales, k);
    let changes = change_dispatches(st.last, sales[k]);
    assert(part[0] == changes[0]);
    lemma_poll_contains(st, sales, k, changes[0]);
    if sales[k].stateuswashing != WashingStatus::EnEspera {
        assert(part[1] == changes[1]);
        lemma_poll_contains(st, sales, k, changes[1]);
    }
}

/// A sale never announced before is announced once it appears: supervisors
/// get its washing state, supervisors and cashiers get the new sale, and
/// cashiers get a payment reminder when it is unpaid.
pub proof fn law_new_sale_announced(st: MonitorView, sales: Seq<Sale>, k: int)
    requires
        0 <= k < sales.len(),
        !st.sent.contains(sales[k].id),
        forall|j: int| 0 <= j < k ==> #[trigger] sales[j].id != sales[k].id,
    ensures
        poll_result(st, sales).1.contains(
            to(
                NoticeView::WashStatusUpdate {
                    sale_id: sales[k].id,
                    placa: plate_text(sales[k].vehicleid),
                    nuevo_estado: sales[k].stateuswashing.label(),
                },
                seq![UserRole::Supervisor],
            ),
        ),
        poll_result(st, sales).1.contains(
            to(
                NoticeView::NewSale {
                    sale_id: sales[k].id,
                    tipo_vehiculo: "Vehículo"@,
                    servicios: seq!["Lavado"@],
                },
                seq![UserRole::Supervisor, UserRole::Cajero],
            ),
        ),
        sales[k].stateuswashing == WashingStatus::EnEspera ==> poll_result(st, sales).1.contains(
            to(
                NoticeView::VehiclePending {
                    placa: plate_text(sales[k].vehicleid),
                    nombre_servicio: "Lavado"@,
                },
                seq![UserRole::Cliente],
            ),
        ),
        sales[k].statussale == StatusPayments::Waiting ==> poll_result(st, sales).1.contains(
            to(
                NoticeView::PendingPaymentReminder {
                    sale_id: sales[k].id,
                    nombre_cliente: client_text(sales[k].clientid),
                    dias_pendiente: 0,
                },
                seq![UserRole::Cajero],
            ),
        ),
{
    let sent = st.sent + sale_ids(sales.take(k));
    assert(!sent.contains(sales[k].id)) by {
        if sale_ids(sales.take(k)).contains(sales[k].id) {
            let j = choose|j: int| 0 <= j < sales.take(k).len() && sales.take(k)[j].id == sales[k].id;
            assert(sales[j].id == sales[k].id);
        }
    }
    let part = sale_part(st.last, st.sent, sales, k);
    let changes = change_dispatches(st.last, sales[k]);
    let arrivals = arrival_dispatches(sent, sales[k]);
    assert(part == changes + arrivals);
    assert(part[changes.len() as int] == arrivals[0]);
    assert(part[changes.len() + 1int] == arrivals[1]);
    lemma_poll_contains(st, sales, k, arrivals[0]);
    lemma_poll_contains(st, sales, k, arrivals[1]);
    if sales[k].stateuswashing == WashingStatus::EnEspera {
        assert(part[changes.len() + 2int] == arrivals[2]);
        lemma_poll_contains(st, sales, k, arrivals[2]);
    }
    if sales[k].statussale == StatusPayments::Waiting {
        let last = (arrivals.len() - 1) as int;
        assert(part[changes.len() as int + last] == arrivals[last]);
        lemma_poll_contains(st, sales, k, arrivals[last]);
    }
}

/// The handoffs a broadcast adds to the server's record of everything it
/// has handed over are exactly one copy of the message for each session it
/// reaches, on that session's own channel, and none for any other session;
/// listing a role twice therefore never sends a second copy.
pub proof fn law_broadcast_one_copy_each<M: Clone>(
    server: WashServer<M>,
    wanted: Set<UserRole>,
    msg: M,
    sent_to: Seq<usize>,
    handoffs: Seq<Handoff<M>>,
    id: usize,
)
    requires
        sent_to.no_duplicates(),
        sent_to.to_set() == members(server.roles(), wanted),
        copies_sent(handoffs, server.registry(), sent_to, msg),
    ensures
        members(server.roles(), wanted).contains(id) ==> exists|k: int|
            0 <= k < handoffs.len() && (#[trigger] handoffs[k]).session == id && handoffs[k].tx
                == server.registry()[id].tx && cloned(msg, handoffs[k].message) && forall|j: int|
                0 <= j < handoffs.len() && (#[trigger] handoffs[j]).session == id ==> j == k,
        !members(server.roles(), wanted).contains(id) ==> forall|k: int|
            0 <= k < handoffs.len() ==> (#[trigger] handoffs[k]).session != id,
{
    if members(server.roles(), wanted).contains(id) {
        assert(sent_to.to_set().contains(id));
        let k = choose|k: int| 0 <= k < sent_to.len() && sent_to[k] == id;
        assert(handoffs[k].session == id);
        assert forall|j: int| 0 <= j < handoffs.len() && (#[trigger] handoffs[j]).session == id implies j == k by {
            assert(sent_to[j] == sent_to[k]);
        }
    } else {
        assert forall|k: int| 0 <= k < handoffs.len() implies (#[trigger] handoffs[k]).session != id by {
            assert(sent_to.to_set().contains(sent_to[k]));
        }
    }
}

/// The positions that the de-duplication of a round keeps are exactly the
/// first occurrences: position `i` is kept when no earlier position holds the
/// same name, and the kept positions come in increasing order.
pub proof fn law_first_occurrences(names: Seq<Seq<char>>)
    requires
        names.len() <= usize::MAX,
    ensures
        forall|k: int| 0 <= k < fresh_positions(names).len() ==> #[trigger] fresh_positions(names)[k] < names.len(),
        forall|k1: int, k2: int|
            0 <= k1 < k2 < fresh_positions(names).len() ==> #[trigger] fresh_positions(names)[k1]
                < #[trigger] fresh_positions(names)[k2],
        forall|i: int|
            #![trigger fresh_positions(names).contains(i as usize)]
            0 <= i < names.len() ==> (fresh_positions(names).contains(i as usize) <==> forall|j: int|
                0 <= j < i ==> #[trigger] names[j] != names[i]),
    decreases names.len(),
{
    if names.len() > 0 {
        let before = names.drop_last();
        let n = (names.len() - 1) as int;
        law_first_occurrences(before);
        let head = fresh_positions(before);
        let tail = if before.contains(names.last()) {
            Seq::<usize>::empty()
        } else {
            seq![before.len() as usize]
        };
        assert(fresh_positions(names) == head + tail);
        assert forall|i: int|
            #![trigger fresh_positions(names).contains(i as usize)]
            0 <= i < names.len() implies (fresh_positions(names).contains(i as usize)
            <==> forall|j: int| 0 <= j < i ==> #[trigger] names[j] != names[i]) by {
            if i < n {
                assert(before[i] == names[i]);
                assert(forall|j: int| 0 <= j < i ==> before[j] == names[j]);
                if fresh_positions(names).contains(i as usize) {
                    let k = choose|k: int| 0 <= k < fresh_positions(names).len() && fresh_positions(names)[k] == i as usize;
                    if k >= head.len() {
                        assert(tail[k - head.len()] == n as usize);
                    } else {
                        assert(head[k] == i as usize);
                    }
                }
                if head.contains(i as usize) {
                    let k = choose|k: int| 0 <= k < head.len() && head[k] == i as usize;
                    assert(fresh_positions(names)[k] == i as usize);
                }
            } else {
                if fresh_positions(names).contains(i as usize) {
                    let k = choose|k: int| 0 <= k < fresh_positions(names).len() && fresh_positions(names)[k] == i as usize;
                    assert(k >= head.len());
                    assert(!before.contains(names.last()));
                    assert forall|j: int| 0 <= j < i implies #[trigger] names[j] != names[i] by {
                        assert(before[j] == names[j]);
                    }
                } else {
                    if !before.contains(names.last()) {
                        assert(fresh_positions(names)[head.len() as int] == i as usize);
                    }
                    let j = choose|j: int| 0 <= j < before.len() && before[j] == names.last();
                    assert(names[j] == names[i]);
                }
            }
        }
    }
}

proof fn lemma_fresh_count(names: Seq<Seq<char>>)
    ensures
        fresh_positions(names).len() == names.to_set().len(),
    decreases names.len(),
{
    vstd::seq_lib::seq_to_set_is_finite(names);
    if names.len() == 0 {
        assert(names.to_set() =~= Set::<Seq<char>>::empty());
    } else {
        let before = names.drop_last();
        lemma_fresh_count(before);
        vstd::seq_lib::seq_to_set_is_finite(before);
        assert(names =~= before.push(names.last()));
        before.lemma_push_to_set_commute(names.last());
        if before.contains(names.last()) {
            assert(before.to_set().contains(names.last()));
            assert(names.to_set() =~= before.to_set());
        } else {
            assert(!before.to_set().contains(names.last()));
        }
    }
}

/// One round of the promotions check sends, for each distinct expired
/// combo, the whole expired list with its size to a supervisor and then to
/// an administrator; after those, for each distinct combo about to expire,
/// the whole list of those with its size and the days left, likewise. The
/// second part depends on the combos about to expire alone, whatever the
/// expired list holds.
pub proof fn law_combo_round(vencidos: Seq<Seq<char>>, por_vencer: Seq<Seq<char>>, dias_restantes: i32)
    ensures
        combo_dispatches(vencidos, por_vencer, dias_restantes).len() == 2 * vencidos.to_set().len() + 2
            * por_vencer.to_set().len(),
        forall|i: int|
            0 <= i < 2 * vencidos.to_set().len() ==> #[trigger] combo_dispatches(
                vencidos,
                por_vencer,
                dias_restantes,
            )[i] == to(
                NoticeView::ExpiredCombosAlert { cantidad_vencidos: vencidos.len() as i64, combos: vencidos },
                if i % 2 == 0 {
                    seq![UserRole::Supervisor]
                } else {
                    seq![UserRole::Admin]
                },
            ),
        forall|i: int|
            2 * vencidos.to_set().len() <= i < combo_dispatches(vencidos, por_vencer, dias_restantes).len()
                ==> #[trigger] combo_dispatches(vencidos, por_vencer, dias_restantes)[i] == to(
                NoticeView::ExpiringCombosAlert {
                    cantidad_por_vencer: por_vencer.len() as i64,
                    dias_restantes,
                    combos: por_vencer,
                },
                if (i - 2 * vencidos.to_set().len()) % 2 == 0 {
                    seq![UserRole::Supervisor]
                } else {
                    seq![UserRole::Admin]
                },
            ),
{
    lemma_fresh_count(vencidos);
    lemma_fresh_count(por_vencer);
}

/// Whether `c` is one of the decimal digits `0`..`9`.
pub open spec fn is_digit(c: char) -> bool {
    '0' <= c && c <= '9'
}

/// The number that a string of decimal digits denotes, most significant first.
pub open spec fn digits_value(s: Seq<char>) -> int
    decreases s.len(),
{
    if s.len() == 0 {
        0
    } else {
        digits_value(s.drop_last()) * 10 + ((s.last() as int) - ('0' as int))
    }
}

/// A base-10 numeral: digits only, at least one, and no leading zero unless
/// it is `0` itself.
pub open spec fn is_numeral(s: Seq<char>) -> bool {
    &&& s.len() > 0
    &&& forall|i: int| 0 <= i < s.len() ==> is_digit(#[trigger] s[i])
    &&& (s[0] == '0' ==> s.len() == 1)
}

proof fn lemma_digit_char_value(d: int)
    requires
        0 <= d < 10,
    ensures
        is_digit(crate::text::digit_char(d)),
        (crate::text::digit_char(d) as int) - ('0' as int) == d,
{
}

/// The base-10 rendering of a natural number is a numeral that reads back
/// as the number.
pub proof fn law_digits_read_back(n: nat)
    ensures
        is_numeral(digits(n)),
        digits_value(digits(n)) == n,
        digits(n)[0] == '0' <==> n == 0,
    decreases n,
{
    if n < 10 {
        lemma_digit_char_value(n as int);
        let d = digits(n);
        assert(d == seq![crate::text::digit_char(n as int)]);
        assert(d.drop_last() =~= Seq::<char>::empty());
        assert(digits_value(d.drop_last()) == 0);
        assert(d.last() == crate::text::digit_char(n as int));
        assert(digits_value(d) == (crate::text::digit_char(n as int) as int) - ('0' as int));
    } else {
        lemma_digit_char_value((n % 10) as int);
        let high = (n / 10) as nat;
        let low = (n % 10) as int;
        law_digits_read_back(high);
        let d = digits(n);
        assert(d == digits(high) + seq![crate::text::digit_char(low)]);
        assert(d.drop_last() =~= digits(high));
        assert(d.last() == crate::text::digit_char(low));
        assert(digits_value(d) == digits_value(digits(high)) * 10 + low);
        assert(d[0] == digits(high)[0]);
        assert(high > 0);
        assert(n == high * 10 + low) by (nonlinear_arith)
            requires
                high == n / 10,
                low == n % 10,
        ;
        assert forall|i: int| 0 <= i < d.len() implies is_digit(#[trigger] d[i]) by {
            if i < d.len() - 1 {
                assert(d[i] == digits(high)[i]);
            }
        }
    }
}

/// The number a numeral with an optional leading `-` denotes.
pub open spec fn signed_value(s: Seq<char>) -> int {
    if s.len() > 0 && s[0] == '-' {
        -digits_value(s.skip(1))
    } else {
        digits_value(s)
    }
}

/// The rendering of an integer is a numeral, preceded by `-` exactly when
/// the integer is negative, and reads back as the integer.
pub proof fn law_decimal_read_back(x: int)
    ensures
        x >= 0 ==> is_numeral(decimal(x)),
        x < 0 ==> decimal(x)[0] == '-' && is_numeral(decimal(x).skip(1)),
        signed_value(decimal(x)) == x,
{
    if x >= 0 {
        law_digits_read_back(x as nat);
    } else {
        law_digits_read_back((-x) as nat);
        assert(decimal(x).skip(1) =~= digits((-x) as nat));
    }
}

/// The plate shown for vehicle `v` is `Vehículo #` followed by a numeral
/// that reads back as `v`.
pub proof fn law_plate_reads_back(v: i32)
    ensures
        plate_text(v).take(10) == "Vehículo #"@,
        signed_value(plate_text(v).skip(10)) == v,
        v >= 0 ==> is_numeral(plate_text(v).skip(10)),
        v < 0 ==> plate_text(v)[10] == '-' && is_numeral(plate_text(v).skip(11)),
{
    reveal_strlit("Vehículo #");
    law_decimal_read_back(v as int);
    assert(plate_text(v).take(10) =~= "Vehículo #"@);
    assert(plate_text(v).skip(10) =~= decimal(v as int));
    if v < 0 {
        assert(plate_text(v).skip(11) =~= decimal(v as int).skip(1));
    }
}

/// Whether `d` is a waiting-vehicle notice.
pub open spec fn is_pending_notice(d: DispatchView) -> bool {
    d.message is VehiclePending
}

proof fn lemma_pending_notices_from_new_waiting_sales(
    last: Map<i32, WashingStatus>,
    sent: Set<i32>,
    sales: Seq<Sale>,
    i: int,
)
    requires
        0 <= i < sales_dispatches(last, sent, sales).len(),
        is_pending_notice(sales_dispatches(last, sent, sales)[i]),
    ensures
        exists|k: int|
            0 <= k < sales.len() && #[trigger] sales[k].stateuswashing == WashingStatus::EnEspera
                && !sent.contains(sales[k].id) && sales_dispatches(last, sent, sales)[i] == to(
                NoticeView::VehiclePending {
                    placa: plate_text(sales[k].vehicleid),
                    nombre_servicio: "Lavado"@,
                },
                seq![UserRole::Cliente],
            ),
    decreases sales.len(),
{
    let before = sales.drop_last();
    let sale = sales.last();
    let n = sales.len() - 1;
    let head = sales_dispatches(last, sent, before);
    let changes = change_dispatches(last, sale);
    let arrivals = arrival_dispatches(sent + sale_ids(before), sale);
    let out = sales_dispatches(last, sent, sales);
    assert(out == head + changes + arrivals);
    if i < head.len() {
        assert(out[i] == head[i]);
        lemma_pending_notices_from_new_waiting_sales(last, sent, before, i);
        let k = choose|k: int|
            0 <= k < before.len() && #[trigger] before[k].stateuswashing == WashingStatus::EnEspera
                && !sent.contains(before[k].id) && head[i] == to(
                NoticeView::VehiclePending {
                    placa: plate_text(before[k].vehicleid),
                    nombre_servicio: "Lavado"@,
                },
                seq![UserRole::Cliente],
            );
        assert(before[k] == sales[k]);
    } else if i < head.len() + changes.len() {
        assert(out[i] == changes[i - head.len()]);
    } else {
        let j = i - head.len() - changes.len();
        assert(out[i] == arrivals[j]);
        assert(!(sent + sale_ids(before)).contains(sale.id));
        assert(sales[n] == sale);
        assert(sale.stateuswashing == WashingStatus::EnEspera);
        assert(j == 2);
    }
}

/// Every waiting-vehicle notice of a poll is, for clients, the plate and
/// service of a sale of the table that waits to be washed and that the poll
/// announces for the first time; no other sale yields one.
pub proof fn law_pending_notice_only_for_new_waiting_sales(st: MonitorView, sales: Seq<Sale>, i: int)
    requires
        0 <= i < poll_result(st, sales).1.len(),
        is_pending_notice(poll_result(st, sales).1[i]),
    ensures
        exists|k: int|
            0 <= k < sales.len() && #[trigger] sales[k].stateuswashing == WashingStatus::EnEspera
                && !st.sent.contains(sales[k].id) && poll_result(st, sales).1[i] == to(
                NoticeView::VehiclePending {
                    placa: plate_text(sales[k].vehicleid),
                    nombre_servicio: "Lavado"@,
                },
                seq![UserRole::Cliente],
            ),
{
    let out = poll_result(st, sales).1;
    let body = sales_dispatches(st.last, st.sent, sales);
    let s = summary_of(sales);
    let tail = if st.summary == Some(s) {
        Seq::<DispatchView>::empty()
    } else {
        summary_dispatches(s)
    };
    assert(out == body + tail);
    if i < body.len() {
        assert(out[i] == body[i]);
        lemma_pending_notices_from_new_waiting_sales(st.last, st.sent, sales, i);
    } else {
        assert(out[i] == tail[i - body.len()]);
    }
}

/// The number of sales of the table in washing state `status`.
pub open spec fn sales_in(sales: Seq<Sale>, status: WashingStatus) -> nat {
    sales.filter(|s: Sale| s.stateuswashing == status).len()
}

proof fn lemma_status_count_is_filter(sales: Seq<Sale>, status: WashingStatus)
    ensures
        status_count(sales, status) == sales_in(sales, status),
    decreases sales.len(),
{
    reveal_with_fuel(Seq::<_>::filter, 1);
    if sales.len() > 0 {
        lemma_status_count_is_filter(sales.drop_last(), status);
    }
}

/// On a non-empty table, a poll sends the summaries exactly when the four
/// counters (sales waiting, being washed, completed, cancelled) differ from
/// the last summary sent, in any of them: then supervisors get the four
/// counters, cashiers the waiting count and the number of sales, and both
/// the waiting count as unpaid; the poll remembers the new counters.
pub proof fn law_summary_sent_when_counts_change(st: MonitorView, sales: Seq<Sale>)
    requires
        0 < sales.len() <= i64::MAX,
    ensures
        ({
            let c = (
                sales_in(sales, WashingStatus::EnEspera) as i64,
                sales_in(sales, WashingStatus::EnProceso) as i64,
                sales_in(sales, WashingStatus::Completado) as i64,
                sales_in(sales, WashingStatus::Cancelado) as i64,
            );
            let out = poll_result(st, sales).1;
            &&& poll_result(st, sales).0.summary == Some(c)
            &&& st.summary != Some(c) ==> {
                &&& out.contains(
                    to(
                        NoticeView::SupervisorSalesSummary {
                            pendientes: c.0,
                            en_proceso: c.1,
                            completadas: c.2,
                            canceladas: c.3,
                        },
                        seq![UserRole::Supervisor],
                    ),
                )
                &&& out.contains(
                    to(
                        NoticeView::CashierDailySummary {
                            cantidad_pendientes: c.0,
                            cantidad_transacciones: sales.len() as i64,
                        },
                        seq![UserRole::Cajero],
                    ),
                )
                &&& out.contains(
                    to(
                        NoticeView::UnpaidSalesAlert { cantidad_sin_pagar: c.0 },
                        seq![UserRole::Supervisor, UserRole::Cajero],
                    ),
                )
            }
            &&& st.summary == Some(c) ==> summary_free(out)
        }),
{
    lemma_status_count_is_filter(sales, WashingStatus::EnEspera);
    lemma_status_count_is_filter(sales, WashingStatus::EnProceso);
    lemma_status_count_is_filter(sales, WashingStatus::Completado);
    lemma_status_count_is_filter(sales, WashingStatus::Cancelado);
    lemma_counts_total(sales);
    let s = summary_of(sales);
    let out = poll_result(st, sales).1;
    let body = sales_dispatches(st.last, st.sent, sales);
    if st.summary != Some(s) {
        let tail = summary_dispatches(s);
        assert(out == body + tail);
        assert(out[body.len() as int] == tail[0]);
        assert(out[body.len() + 1int] == tail[1]);
        assert(out[body.len() + 2int] == tail[2]);
    } else {
        law_summary_only_on_change(st, sales);
    }
}

proof fn lemma_dispatch_has_part(
    last: Map<i32, WashingStatus>,
    sent: Set<i32>,
    sales: Seq<Sale>,
    i: int,
)
    requires
        0 <= i < sales_dispatches(last, sent, sales).len(),
    ensures
        exists|k: int|
            0 <= k < sales.len() && #[trigger] sale_part(last, sent, sales, k).contains(
                sales_dispatches(last, sent, sales)[i],
            ),
    decreases sales.len(),
{
    let before = sales.drop_last();
    let n = sales.len() - 1;
    let head = sales_dispatches(last, sent, before);
    let part = change_dispatches(last, sales.last()) + arrival_dispatches(
        sent + sale_ids(before),
        sales.last(),
    );
    let out = sales_dispatches(last, sent, sales);
    assert(out =~= head + part);
    if i < head.len() {
        assert(out[i] == head[i]);
        lemma_dispatch_has_part(last, sent, before, i);
        let k = choose|k: int|
            0 <= k < before.len() && #[trigger] sale_part(last, sent, before, k).contains(head[i]);
        assert(before[k] == sales[k]);
        assert(before.take(k) =~= sales.take(k));
        assert(sale_part(last, sent, before, k) == sale_part(last, sent, sales, k));
        assert(sale_part(last, sent, sales, k).contains(out[i]));
    } else {
        assert(sales.take(n) =~= before);
        assert(sales[n] == sales.last());
        assert(sale_part(last, sent, sales, n) == part);
        assert(part[i - head.len()] == out[i]);
        assert(sale_part(last, sent, sales, n).contains(out[i]));
    }
}

/// The cause that, for the sale at position `k` of the polled table,
/// accounts for the notice `d` of a poll from state `st`.
pub open spec fn caused_by(st: MonitorView, sales: Seq<Sale>, k: int, d: DispatchView) -> bool {
    let sale = sales[k];
    let known_change = st.last.contains_key(sale.id) && st.last[sale.id] != sale.stateuswashing;
    let is_new = !st.sent.contains(sale.id);
    let plate = plate_text(sale.vehicleid);
    match d.message {
        NoticeView::SupervisorSaleStateChanged { .. } => known_change && d == to(
            NoticeView::SupervisorSaleStateChanged {
                sale_id: sale.id,
                estado_anterior: st.last[sale.id].label(),
                estado_actual: sale.stateuswashing.label(),
            },
            seq![UserRole::Supervisor],
        ),
        NoticeView::VehicleReady { .. } => known_change && sale.stateuswashing == WashingStatus::Completado
            && d == to(
            NoticeView::VehicleReady { placa: plate, nombre_servicio: "Lavado completado"@ },
            seq![UserRole::Cliente],
        ),
        NoticeView::VehicleInProgress { .. } => known_change && sale.stateuswashing
            == WashingStatus::EnProceso && d == to(
            NoticeView::VehicleInProgress { placa: plate, nombre_servicio: "Lavado en proceso"@ },
            seq![UserRole::Cliente],
        ),
        NoticeView::VehicleCanceled { .. } => known_change && sale.stateuswashing
            == WashingStatus::Cancelado && d == to(
            NoticeView::VehicleCanceled {
                placa: plate,
                nombre_servicio: "Lavado"@,
                motivo: "Cancelado por el supervisor"@,
            },
            seq![UserRole::Cliente],
        ),
        NoticeView::WashStatusUpdate { .. } => is_new && d == to(
            NoticeView::WashStatusUpdate {
                sale_id: sale.id,
                placa: plate,
                nuevo_estado: sale.stateuswashing.label(),
            },
            seq![UserRole::Supervisor],
        ),
        NoticeView::NewSale { .. } => is_new && d == to(
            NoticeView::NewSale {
                sale_id: sale.id,
                tipo_vehiculo: "Vehículo"@,
                servicios: seq!["Lavado"@],
            },
            seq![UserRole::Supervisor, UserRole::Cajero],
        ),
        NoticeView::VehiclePending { .. } => is_new && sale.stateuswashing == WashingStatus::EnEspera
            && d == to(
            NoticeView::VehiclePending { placa: plate, nombre_servicio: "Lavado"@ },
            seq![UserRole::Cliente],
        ),
        NoticeView::PendingPaymentReminder { .. } => is_new && sale.statussale
            == StatusPayments::Waiting && d == to(
            NoticeView::PendingPaymentReminder {
                sale_id: sale.id,
                nombre_cliente: client_text(sale.clientid),
                dias_pendiente: 0,
            },
            seq![UserRole::Cajero],
        ),
        _ => false,
    }
}

proof fn lemma_part_caused(st: MonitorView, sales: Seq<Sale>, k: int, d: DispatchView)
    requires
        0 <= k < sales.len(),
        sale_part(st.last, st.sent, sales, k).contains(d),
    ensures
        caused_by(st, sales, k, d),
{
    let sent = st.sent + sale_ids(sales.take(k));
    let changes = change_dispatches(st.last, sales[k]);
    let arrivals = arrival_dispatches(sent, sales[k]);
    let part = sale_part(st.last, st.sent, sales, k);
    assert(part == changes + arrivals);
    let j = choose|j: int| 0 <= j < part.len() && part[j] == d;
    if j < changes.len() {
        assert(d == changes[j]);
    } else {
        assert(d == arrivals[j - changes.len()]);
        assert(!sent.contains(sales[k].id));
    }
}

/// Every notice of a poll other than the three summaries has a cause in the
/// table: a state change reported for a sale whose washing state differs from
/// the one seen at the previous poll (with the client notice matching the new
/// state), or an announcement, waiting notice or payment reminder for a sale
/// not announced before (waiting to be washed, or unpaid, respectively).
pub proof fn law_every_notice_has_a_cause(st: MonitorView, sales: Seq<Sale>, i: int)
    requires
        0 <= i < poll_result(st, sales).1.len(),
    ensures
        poll_result(st, sales).1[i].message is SupervisorSalesSummary
            || poll_result(st, sales).1[i].message is CashierDailySummary
            || poll_result(st, sales).1[i].message is UnpaidSalesAlert
            || exists|k: int|
            0 <= k < sales.len() && #[trigger] caused_by(st, sales, k, poll_result(st, sales).1[i]),
{
    let out = poll_result(st, sales).1;
    let body = sales_dispatches(st.last, st.sent, sales);
    let s = summary_of(sales);
    let tail = if st.summary == Some(s) {
        Seq::<DispatchView>::empty()
    } else {
        summary_dispatches(s)
    };
    assert(out == body + tail);
    if i < body.len() {
        assert(out[i] == body[i]);
        lemma_dispatch_has_part(st.last, st.sent, sales, i);
        let k = choose|k: int|
            0 <= k < sales.len() && #[trigger] sale_part(st.last, st.sent, sales, k).contains(body[i]);
        lemma_part_caused(st, sales, k, body[i]);
    } else {
        assert(out[i] == tail[i - body.len()]);
    }
}

/// The name shown for client `c` is `Cliente #` followed by a numeral that
/// reads back as `c`.
pub proof fn law_client_name_reads_back(c: i32)
    ensures
        client_text(c).take(9) == "Cliente #"@,
        signed_value(client_text(c).skip(9)) == c,
        c >= 0 ==> is_numeral(client_text(c).skip(9)),
        c < 0 ==> client_text(c)[9] == '-' && is_numeral(client_text(c).skip(10)),
{
    reveal_strlit("Cliente #");
    law_decimal_read_back(c as int);
    assert(client_text(c).take(9) =~= "Cliente #"@);
    assert(client_text(c).skip(9) =~= decimal(c as int));
    if c < 0 {
        assert(client_text(c).skip(10) =~= decimal(c as int).skip(1));
    }
}

/// Whether the `key=value` pair `pair` has the key `role`, that is, starts
/// with `role=`.
pub open spec fn is_role_pair(pair: Seq<char>) -> bool {
    pair.len() >= 5 && pair.take(5) == "role="@
}

proof fn lemma_first_pair(pair: Seq<char>, rest: Option<Seq<char>>)
    requires
        !pair.contains('&'),
    ensures
        ({
            let q = match rest {
                Some(r) => pair + seq!['&'] + r,
                None => pair,
            };
            &&& is_role_pair(pair) ==> role_value(q) == Some(pair.skip(5))
            &&& !is_role_pair(pair) ==> role_value(q) == match rest {
                Some(r) => role_value(r),
                None => None,
            }
        }),
{
    reveal_strlit("role");
    reveal_strlit("role=");
    let q = match rest {
        Some(r) => pair + seq!['&'] + r,
        None => pair,
    };
    let end = pair.len() as int;
    assert forall|j: int| 0 <= j < end implies q[j] != '&' by {
        assert(q[j] == pair[j]);
        assert(pair.contains(pair[j]));
    }
    if rest is Some {
        assert(q[end] == '&');
    }
    lemma_position_at(q, '&', end);
    let p = q.take(end);
    assert(p =~= pair);
    let eq = position_of(p, '=');
    lemma_position_bounds(p, '=');
    if is_role_pair(pair) {
        assert forall|j: int| 0 <= j < 4 implies p[j] != '=' by {
            assert(p[j] == p.take(5)[j]);
        }
        assert(p[4] == p.take(5)[4]);
        lemma_position_at(p, '=', 4);
        assert(p.take(4) =~= "role"@);
    } else {
        if eq < p.len() && p.take(eq) == "role"@ {
            assert(p.take(eq).len() == eq);
            assert(eq == 4);
            lemma_position_found(p, '=');
            assert(p.take(5) =~= "role="@) by {
                assert(p.take(5)[0] == p.take(eq)[0]);
                assert(p.take(5)[1] == p.take(eq)[1]);
                assert(p.take(5)[2] == p.take(eq)[2]);
                assert(p.take(5)[3] == p.take(eq)[3]);
            }
        }
        if rest is Some {
            assert(q.skip(end + 1) =~= rest->0);
        }
    }
}

/// Reading the role from a query string looks at its `&`-separated pairs in
/// order: the first pair that starts with `role=` gives the value (what
/// follows `role=` up to the next `&`), pairs with another key are skipped,
/// and a query whose last pair is not a role pair has no role value.
pub proof fn law_role_value_first_role_pair(pair: Seq<char>, rest: Seq<char>)
    requires
        !pair.contains('&'),
    ensures
        is_role_pair(pair) ==> role_value(pair) == Some(pair.skip(5)),
        is_role_pair(pair) ==> role_value(pair + seq!['&'] + rest) == Some(pair.skip(5)),
        !is_role_pair(pair) ==> role_value(pair) == None::<Seq<char>>,
        !is_role_pair(pair) ==> role_value(pair + seq!['&'] + rest) == role_value(rest),
{
    lemma_first_pair(pair, None);
    lemma_first_pair(pair, Some(rest));
}

} // verus!
