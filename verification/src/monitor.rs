use vstd::prelude::*;
use vstd::string::*;
use std::collections::{HashMap, HashSet};

use crate::messages::{dispatch_views, Dispatch, DispatchView, NoticeView, Notification, UserRole};
use crate::models::{Sale, StatusPayments, WashingStatus};
use crate::text::{decimal, labelled_number};

verus! {

broadcast use vstd::std_specs::hash::group_hash_axioms;

/// The four counters of a sales summary: sales waiting, being washed,
/// completed and cancelled.
pub type Summary = (i64, i64, i64, i64);

/// What the monitor remembers between two polls.
pub struct MonitorView {
    /// Sales already announced as new.
    pub sent: Set<i32>,
    /// The washing state of each sale seen at the previous poll.
    pub last: Map<i32, WashingStatus>,
    /// The summary broadcast last, if any.
    pub summary: Option<Summary>,
}

/// The plate shown for a vehicle: `Vehículo #<id>`.
pub open spec fn plate_text(vehicle: i32) -> Seq<char> {
    "Vehículo #"@ + decimal(vehicle as int)
}

/// The name shown for a client: `Cliente #<id>`.
pub open spec fn client_text(client: i32) -> Seq<char> {
    "Cliente #"@ + decimal(client as int)
}

/// A dispatch of `message` to `roles`.
pub open spec fn to(message: NoticeView, roles: Seq<UserRole>) -> DispatchView {
    DispatchView { message, roles }
}

/// Notifications for a sale already known at the previous poll whose washing
/// state changed since: the change itself for supervisors, and for clients
/// the news that the vehicle is being washed, ready, or cancelled.
pub open spec fn change_dispatches(last: Map<i32, WashingStatus>, sale: Sale) -> Seq<DispatchView> {
    let status = sale.stateuswashing;
    if last.contains_key(sale.id) && last[sale.id] != status {
        let changed = to(
            NoticeView::SupervisorSaleStateChanged {
                sale_id: sale.id,
                estado_anterior: last[sale.id].label(),
                estado_actual: status.label(),
            },
            seq![UserRole::Supervisor],
        );
        let plate = plate_text(sale.vehicleid);
        seq![changed] + match status {
            WashingStatus::Completado => seq![
                to(
                    NoticeView::VehicleReady { placa: plate, nombre_servicio: "Lavado completado"@ },
                    seq![UserRole::Cliente],
                ),
            ],
            WashingStatus::EnProceso => seq![
                to(
                    NoticeView::VehicleInProgress { placa: plate, nombre_servicio: "Lavado en proceso"@ },
                    seq![UserRole::Cliente],
                ),
            ],
            WashingStatus::Cancelado => seq![
                to(
                    NoticeView::VehicleCanceled {
                        placa: plate,
                        nombre_servicio: "Lavado"@,
                        motivo: "Cancelado por el supervisor"@,
                    },
                    seq![UserRole::Cliente],
                ),
            ],
            WashingStatus::EnEspera => Seq::empty(),
        }
    } else {
        Seq::empty()
    }
}

/// Notifications for a sale not announced yet: its state for supervisors,
/// the new sale for supervisors and cashiers, a waiting notice for clients
/// when it waits to be washed, and a payment reminder for cashiers when it
/// is unpaid.
pub open spec fn arrival_dispatches(sent: Set<i32>, sale: Sale) -> Seq<DispatchView> {
    if sent.contains(sale.id) {
        Seq::empty()
    } else {
        let plate = plate_text(sale.vehicleid);
        seq![
            to(
                NoticeView::WashStatusUpdate {
                    sale_id: sale.id,
                    placa: plate,
                    nuevo_estado: sale.stateuswashing.label(),
                },
                seq![UserRole::Supervisor],
            ),
            to(
                NoticeView::NewSale {
                    sale_id: sale.id,
                    tipo_vehiculo: "Vehículo"@,
                    servicios: seq!["Lavado"@],
                },
                seq![UserRole::Supervisor, UserRole::Cajero],
            ),
        ] + (if sale.stateuswashing == WashingStatus::EnEspera {
            seq![
                to(
                    NoticeView::VehiclePending { placa: plate, nombre_servicio: "Lavado"@ },
                    seq![UserRole::Cliente],
                ),
            ]
        } else {
            Seq::empty()
        }) + (if sale.statussale == StatusPayments::Waiting {
            seq![
                to(
                    NoticeView::PendingPaymentReminder {
                        sale_id: sale.id,
                        nombre_cliente: client_text(sale.clientid),
                        dias_pendiente: 0,
                    },
                    seq![UserRole::Cajero],
                ),
            ]
        } else {
            Seq::empty()
        })
    }
}

/// The ids of the given sales.
pub open spec fn sale_ids(sales: Seq<Sale>) -> Set<i32> {
    Set::new(|id: i32| exists|i: int| 0 <= i < sales.len() && sales[i].id == id)
}

/// The notifications for the given sales, taken in order: a sale is new when
/// its id was neither announced before the poll nor met earlier in the poll.
pub open spec fn sales_dispatches(
    last: Map<i32, WashingStatus>,
    sent: Set<i32>,
    sales: Seq<Sale>,
) -> Seq<DispatchView>
    decreases sales.len(),
{
    if sales.len() == 0 {
        Seq::empty()
    } else {
        let before = sales.drop_last();
        let sale = sales.last();
        sales_dispatches(last, sent, before) + change_dispatches(last, sale) + arrival_dispatches(
            sent + sale_ids(before),
            sale,
        )
    }
}

/// The number of sales in washing state `status`.
pub open spec fn status_count(sales: Seq<Sale>, status: WashingStatus) -> nat
    decreases sales.len(),
{
    if sales.len() == 0 {
        0
    } else {
        status_count(sales.drop_last(), status) + if sales.last().stateuswashing == status {
            1nat
        } else {
            0nat
        }
    }
}

/// The summary of the given sales.
pub open spec fn summary_of(sales: Seq<Sale>) -> Summary {
    (
        status_count(sales, WashingStatus::EnEspera) as i64,
        status_count(sales, WashingStatus::EnProceso) as i64,
        status_count(sales, WashingStatus::Completado) as i64,
        status_count(sales, WashingStatus::Cancelado) as i64,
    )
}

/// The notifications of a new summary: the counters for supervisors, the
/// cashier's daily summary, and the unpaid sales alert for supervisors and
/// cashiers (waiting sales are counted as unpaid).
pub open spec fn summary_dispatches(s: Summary) -> Seq<DispatchView> {
    seq![
        to(
            NoticeView::SupervisorSalesSummary {
                pendientes: s.0,
                en_proceso: s.1,
                completadas: s.2,
                canceladas: s.3,
            },
            seq![UserRole::Supervisor],
        ),
        to(
            NoticeView::CashierDailySummary {
                cantidad_pendientes: s.0,
                cantidad_transacciones: (s.0 + s.1 + s.2 + s.3) as i64,
            },
            seq![UserRole::Cajero],
        ),
        to(
            NoticeView::UnpaidSalesAlert { cantidad_sin_pagar: s.0 },
            seq![UserRole::Supervisor, UserRole::Cajero],
        ),
    ]
}

/// The washing state of each sale id, the later of two sales with one id winning.
pub open spec fn statuses_of(sales: Seq<Sale>) -> Map<i32, WashingStatus>
    decreases sales.len(),
{
    if sales.len() == 0 {
        Map::empty()
    } else {
        statuses_of(sales.drop_last()).insert(sales.last().id, sales.last().stateuswashing)
    }
}

/// One poll of the sales table: the state after it and the notifications it
/// broadcasts. An empty table announces nothing and forgets the last states.
pub open spec fn poll_result(st: MonitorView, sales: Seq<Sale>) -> (MonitorView, Seq<DispatchView>) {
    if sales.len() == 0 {
        (MonitorView { sent: st.sent, last: Map::empty(), summary: st.summary }, Seq::empty())
    } else {
        let s = summary_of(sales);
        let out = sales_dispatches(st.last, st.sent, sales) + if st.summary == Some(s) {
            Seq::<DispatchView>::empty()
        } else {
            summary_dispatches(s)
        };
        (MonitorView { sent: st.sent + sale_ids(sales), last: statuses_of(sales), summary: Some(s) }, out)
    }
}

/// Every sale is counted in exactly one of the four washing states.
pub proof fn lemma_counts_total(sales: Seq<Sale>)
    ensures
        status_count(sales, WashingStatus::EnEspera) + status_count(sales, WashingStatus::EnProceso)
            + status_count(sales, WashingStatus::Completado) + status_count(
            sales,
            WashingStatus::Cancelado,
        ) == sales.len(),
    decreases sales.len(),
{
    if sales.len() > 0 {
        lemma_counts_total(sales.drop_last());
    }
}

/// The polling monitor of the sales table: it remembers which sales were
/// announced, the washing state of each sale at the previous poll and the
/// last summary broadcast.
pub struct SalesMonitor {
    pub sent_notifications: HashSet<i32>,
    pub last_sale_statuses: HashMap<i32, WashingStatus>,
    pub last_summary: Option<Summary>,
}

impl View for SalesMonitor {
    type V = MonitorView;

    open spec fn view(&self) -> MonitorView {
        MonitorView {
            sent: self.sent_notifications@,
            last: self.last_sale_statuses@,
            summary: self.last_summary,
        }
    }
}

fn emit(out: &mut Vec<Dispatch>, message: Notification, roles: Vec<UserRole>)
    ensures
        dispatch_views(final(out)@) == dispatch_views(old(out)@).push(to(message@, roles@)),
{
    let d = Dispatch { message, roles };
    out.push(d);
    assert(dispatch_views(out@) =~= dispatch_views(old(out)@).push(to(d.message@, d.roles@)));
}

fn only(role: UserRole) -> (v: Vec<UserRole>)
    ensures
        v@ == seq![role],
{
    let mut v: Vec<UserRole> = Vec::new();
    v.push(role);
    assert(v@ =~= seq![role]);
    v
}

fn supervisor_and_cashier() -> (v: Vec<UserRole>)
    ensures
        v@ == seq![UserRole::Supervisor, UserRole::Cajero],
{
    let mut v: Vec<UserRole> = Vec::new();
    v.push(UserRole::Supervisor);
    v.push(UserRole::Cajero);
    assert(v@ =~= seq![UserRole::Supervisor, UserRole::Cajero]);
    v
}

fn plate(vehicle: i32) -> (s: String)
    ensures
        s@ == plate_text(vehicle),
{
    labelled_number("Vehículo #", vehicle)
}

fn push_changes(out: &mut Vec<Dispatch>, last: &HashMap<i32, WashingStatus>, sale: &Sale)
    ensures
        dispatch_views(final(out)@) == dispatch_views(old(out)@) + change_dispatches(last@, *sale),
{
    let status = sale.stateuswashing;
    match last.get(&sale.id) {
        Some(previous) => {
            if *previous != status {
                let ghost start = dispatch_views(out@);
                emit(
                    out,
                    Notification::SupervisorSaleStateChanged {
                        sale_id: sale.id,
                        estado_anterior: String::from_str(previous.display()),
                        estado_actual: String::from_str(status.display()),
                    },
                    only(UserRole::Supervisor),
                );
                match status {
                    WashingStatus::Completado => {
                        emit(
                            out,
                            Notification::VehicleReady {
                                placa: plate(sale.vehicleid),
                                nombre_servicio: String::from_str("Lavado completado"),
                            },
                            only(UserRole::Cliente),
                        );
                    },
                    WashingStatus::EnProceso => {
                        emit(
                            out,
                            Notification::VehicleInProgress {
                                placa: plate(sale.vehicleid),
                                nombre_servicio: String::from_str("Lavado en proceso"),
                            },
                            only(UserRole::Cliente),
                        );
                    },
                    WashingStatus::Cancelado => {
                        emit(
                            out,
                            Notification::VehicleCanceled {
                                placa: plate(sale.vehicleid),
                                nombre_servicio: String::from_str("Lavado"),
                                motivo: String::from_str("Cancelado por el supervisor"),
                            },
                            only(UserRole::Cliente),
                        );
                    },
                    WashingStatus::EnEspera => {},
                }
                assert(dispatch_views(out@) =~= start + change_dispatches(last@, *sale));
            } else {
                assert(dispatch_views(out@) =~= dispatch_views(old(out)@) + change_dispatches(last@, *sale));
            }
        },
        None => {
            assert(dispatch_views(out@) =~= dispatch_views(old(out)@) + change_dispatches(last@, *sale));
        },
    }
}

fn push_arrival(out: &mut Vec<Dispatch>, sent: &HashSet<i32>, sale: &Sale)
    requires
        !sent@.contains(sale.id),
    ensures
        dispatch_views(final(out)@) == dispatch_views(old(out)@) + arrival_dispatches(sent@, *sale),
{
    let ghost start = dispatch_views(out@);
    emit(
        out,
        Notification::WashStatusUpdate {
            sale_id: sale.id,
            placa: plate(sale.vehicleid),
            nuevo_estado: String::from_str(sale.stateuswashing.display()),
        },
        only(UserRole::Supervisor),
    );
    let mut servicios: Vec<String> = Vec::new();
    servicios.push(String::from_str("Lavado"));
    assert(servicios@.map_values(|s: String| s@) =~= seq!["Lavado"@]);
    emit(
        out,
        Notification::NewSale {
            sale_id: sale.id,
            tipo_vehiculo: String::from_str("Vehículo"),
            servicios,
        },
        supervisor_and_cashier(),
    );
    if let WashingStatus::EnEspera = sale.stateuswashing {
        emit(
            out,
            Notification::VehiclePending {
                placa: plate(sale.vehicleid),
                nombre_servicio: String::from_str("Lavado"),
            },
            only(UserRole::Cliente),
        );
    }
    if let StatusPayments::Waiting = sale.statussale {
        emit(
            out,
            Notification::PendingPaymentReminder {
                sale_id: sale.id,
                nombre_cliente: labelled_number("Cliente #", sale.clientid),
                dias_pendiente: 0,
            },
            only(UserRole::Cajero),
        );
    }
    assert(dispatch_views(out@) =~= start + arrival_dispatches(sent@, *sale));
}

fn push_summary(out: &mut Vec<Dispatch>, s: Summary)
    requires
        0 <= s.0,
        0 <= s.1,
        0 <= s.2,
        0 <= s.3,
        s.0 + s.1 + s.2 + s.3 <= i64::MAX,
    ensures
        dispatch_views(final(out)@) == dispatch_views(old(out)@) + summary_dispatches(s),
{
    let ghost start = dispatch_views(out@);
    emit(
        out,
        Notification::SupervisorSalesSummary {
            pendientes: s.0,
            en_proceso: s.1,
            completadas: s.2,
            canceladas: s.3,
        },
        only(UserRole::Supervisor),
    );
    emit(
        out,
        Notification::CashierDailySummary {
            cantidad_pendientes: s.0,
            cantidad_transacciones: s.0 + s.1 + s.2 + s.3,
        },
        only(UserRole::Cajero),
    );
    emit(
        out,
        Notification::UnpaidSalesAlert { cantidad_sin_pagar: s.0 },
        supervisor_and_cashier(),
    );
    assert(dispatch_views(out@) =~= start + summary_dispatches(s));
}

impl SalesMonitor {
    /// A monitor that has announced nothing and seen no sale.
    pub fn new() -> (m: Self)
        ensures
            m@.sent == Set::<i32>::empty(),
            m@.last == Map::<i32, WashingStatus>::empty(),
            m@.summary == None::<Summary>,
    {
        SalesMonitor {
            sent_notifications: HashSet::new(),
            last_sale_statuses: HashMap::new(),
            last_summary: None,
        }
    }

    /// Processes one snapshot of the sales table, in table order: announces
    /// each sale seen for the first time, reports each known sale whose
    /// washing state changed since the previous poll, and broadcasts the
    /// summary of washing states when it differs from the last one sent.
    /// Returns the notifications to broadcast, in order.
    pub fn poll(&mut self, sales: &Vec<Sale>) -> (out: Vec<Dispatch>)
        requires
            sales@.len() <= i64::MAX,
        ensures
            (final(self)@, dispatch_views(out@)) == poll_result(old(self)@, sales@),
    {
        let mut out: Vec<Dispatch> = Vec::new();
        let mut current: HashMap<i32, WashingStatus> = HashMap::new();
        if sales.len() == 0 {
            self.last_sale_statuses = current;
            assert(dispatch_views(out@) =~= Seq::<DispatchView>::empty());
            return out;
        }
        let ghost sent0 = self.sent_notifications@;
        let ghost last0 = self.last_sale_statuses@;
        let mut pending: i64 = 0;
        let mut in_progress: i64 = 0;
        let mut completed: i64 = 0;
        let mut canceled: i64 = 0;
        let mut i: usize = 0;
        proof {
            assert(sales@.take(0) =~= Seq::<Sale>::empty());
            assert(sale_ids(Seq::<Sale>::empty()) =~= Set::<i32>::empty());
            assert(sent0 + Set::<i32>::empty() =~= sent0);
            assert(dispatch_views(out@) =~= Seq::<DispatchView>::empty());
        }
        while i < sales.len()
            invariant
                i <= sales@.len(),
                sales@.len() <= i64::MAX,
                self.last_sale_statuses@ == last0,
                self.last_summary == old(self).last_summary,
                sent0 == old(self).sent_notifications@,
                last0 == old(self).last_sale_statuses@,
                self.sent_notifications@ == sent0 + sale_ids(sales@.take(i as int)),
                current@ == statuses_of(sales@.take(i as int)),
                pending == status_count(sales@.take(i as int), WashingStatus::EnEspera),
                in_progress == status_count(sales@.take(i as int), WashingStatus::EnProceso),
                completed == status_count(sales@.take(i as int), WashingStatus::Completado),
                canceled == status_count(sales@.take(i as int), WashingStatus::Cancelado),
                dispatch_views(out@) == sales_dispatches(last0, sent0, sales@.take(i as int)),
            decreases sales@.len() - i,
        {
            let sale = &sales[i];
            let ghost before = sales@.take(i as int);
            let ghost upto = sales@.take(i + 1);
            proof {
                assert(upto.drop_last() =~= before);
                assert(upto.last() == *sale);
                lemma_counts_total(before);
                assert(sale_ids(upto) =~= sale_ids(before).insert(sale.id)) by {
                    assert forall|id: i32| sale_ids(upto).contains(id) implies sale_ids(before).insert(sale.id).contains(id) by {
                        let k = choose|k: int| 0 <= k < upto.len() && upto[k].id == id;
                        if k < i {
                            assert(before[k].id == id);
                        }
                    }
                    assert forall|id: i32| sale_ids(before).insert(sale.id).contains(id) implies sale_ids(upto).contains(id) by {
                        if id == sale.id {
                            assert(upto[i as int].id == id);
                        } else {
                            let k = choose|k: int| 0 <= k < before.len() && before[k].id == id;
                            assert(upto[k].id == id);
                        }
                    }
                }
            }
            current.insert(sale.id, sale.stateuswashing);
            match sale.stateuswashing {
                WashingStatus::EnEspera => pending = pending + 1,
                WashingStatus::EnProceso => in_progress = in_progress + 1,
                WashingStatus::Completado => completed = completed + 1,
                WashingStatus::Cancelado => canceled = canceled + 1,
            }
            push_changes(&mut out, &self.last_sale_statuses, sale);
            if !self.sent_notifications.contains(&sale.id) {
                push_arrival(&mut out, &self.sent_notifications, sale);
                self.sent_notifications.insert(sale.id);
            }
            proof {
                assert(sent0 + sale_ids(upto) =~= (sent0 + sale_ids(before)).insert(sale.id));
            }
            i = i + 1;
        }
        proof {
            assert(sales@.take(sales@.len() as int) =~= sales@);
            lemma_counts_total(sales@);
        }
        let summary: Summary = (pending, in_progress, completed, canceled);
        let changed = match self.last_summary {
            Some(previous) => !(previous.0 == pending && previous.1 == in_progress
                && previous.2 == completed && previous.3 == canceled),
            None => true,
        };
        if changed {
            push_summary(&mut out, summary);
            self.last_summary = Some(summary);
        }
        self.last_sale_statuses = current;
        out
    }
}

/// The positions, in increasing order, of the names that do not occur
/// earlier in `names`.
pub open spec fn fresh_positions(names: Seq<Seq<char>>) -> Seq<usize>
    decreases names.len(),
{
    if names.len() == 0 {
        Seq::empty()
    } else {
        let before = names.drop_last();
        fresh_positions(before) + if before.contains(names.last()) {
            Seq::<usize>::empty()
        } else {
            seq![before.len() as usize]
        }
    }
}

/// The character sequences of a list of strings.
pub open spec fn texts(names: Seq<String>) -> Seq<Seq<char>> {
    names.map_values(|s: String| s@)
}

/// Deduplicates one round of inventory or promotion alerts: the positions of
/// the names (products low on stock, expired or expiring combos) that were not
/// already alerted earlier in the same round. The alert set of a round starts
/// empty, so these are the first occurrences of each name.
pub fn first_occurrences(names: &Vec<String>) -> (firsts: Vec<usize>)
    ensures
        firsts@ == fresh_positions(texts(names@)),
{
    let mut firsts: Vec<usize> = Vec::new();
    let mut i: usize = 0;
    assert(texts(names@).take(0) =~= Seq::<Seq<char>>::empty());
    while i < names.len()
        invariant
            i <= names@.len(),
            firsts@ == fresh_positions(texts(names@).take(i as int)),
        decreases names@.len() - i,
    {
        let ghost all = texts(names@);
        let ghost before = all.take(i as int);
        let ghost upto = all.take(i + 1);
        proof {
            assert(upto.drop_last() =~= before);
            assert(upto.last() == names@[i as int]@);
        }
        let mut seen = false;
        let mut j: usize = 0;
        while j < i
            invariant
                j <= i,
                i < names@.len(),
                before == texts(names@).take(i as int),
                seen == exists|k: int| 0 <= k < j && before[k] == names@[i as int]@,
            decreases i - j,
        {
            assert(before[j as int] == names@[j as int]@);
            if names[j] == names[i] {
                seen = true;
            }
            j = j + 1;
        }
        proof {
            if before.contains(upto.last()) {
                let k = choose|k: int| 0 <= k < before.len() && before[k] == upto.last();
                assert(0 <= k < j && before[k] == names@[i as int]@);
            }
        }
        if !seen {
            firsts.push(i);
        }
        assert(firsts@ =~= fresh_positions(upto));
        i = i + 1;
    }
    assert(texts(names@).take(names@.len() as int) =~= texts(names@));
    firsts
}

/// Dispatches of `notice` alternately to supervisors and to administrators,
/// `len` of them, starting with supervisors.
pub open spec fn alternating(len: nat, notice: NoticeView) -> Seq<DispatchView> {
    Seq::new(
        len,
        |i: int|
            if i % 2 == 0 {
                to(notice, seq![UserRole::Supervisor])
            } else {
                to(notice, seq![UserRole::Admin])
            },
    )
}

/// Two dispatches of `notice` for each of `n` alerts: one to supervisors,
/// then one to administrators.
pub open spec fn alert_pairs(n: nat, notice: NoticeView) -> Seq<DispatchView> {
    alternating(2 * n, notice)
}

/// The alerts of one round of the promotions check: for each distinct
/// expired combo, the list of expired combos to supervisors and to
/// administrators; then, for each distinct combo about to expire, the list
/// of those combos with the days left, likewise.
pub open spec fn combo_dispatches(
    vencidos: Seq<Seq<char>>,
    por_vencer: Seq<Seq<char>>,
    dias_restantes: i32,
) -> Seq<DispatchView> {
    alert_pairs(
        fresh_positions(vencidos).len(),
        NoticeView::ExpiredCombosAlert { cantidad_vencidos: vencidos.len() as i64, combos: vencidos },
    ) + alert_pairs(
        fresh_positions(por_vencer).len(),
        NoticeView::ExpiringCombosAlert {
            cantidad_por_vencer: por_vencer.len() as i64,
            dias_restantes,
            combos: por_vencer,
        },
    )
}

fn copy_texts(names: &Vec<String>) -> (copy: Vec<String>)
    ensures
        texts(copy@) == texts(names@),
{
    let mut copy: Vec<String> = Vec::new();
    let mut i: usize = 0;
    while i < names.len()
        invariant
            i <= names@.len(),
            texts(copy@) == texts(names@).take(i as int),
        decreases names@.len() - i,
    {
        let ghost before = copy@;
        assert(texts(before).len() == before.len());
        assert(before.len() == i);
        let name = names[i].clone();
        assert(name@ == names@[i as int]@);
        copy.push(name);
        assert(copy@ == before.push(name));
        assert forall|j: int| 0 <= j < i + 1 implies texts(copy@)[j] == texts(names@).take(i + 1)[j] by {
            if j < i {
                assert(texts(before)[j] == texts(names@).take(i as int)[j]);
                assert(copy@[j] == before[j]);
            }
        }
        assert(texts(copy@) =~= texts(names@).take(i + 1));
        i = i + 1;
    }
    assert(texts(names@).take(names@.len() as int) =~= texts(names@));
    copy
}

fn push_alert_pairs(out: &mut Vec<Dispatch>, names: &Vec<String>, days: Option<i32>)
    requires
        names@.len() <= i64::MAX,
    ensures
        dispatch_views(final(out)@) == dispatch_views(old(out)@) + alert_pairs(
            fresh_positions(texts(names@)).len(),
            match days {
                None => NoticeView::ExpiredCombosAlert {
                    cantidad_vencidos: names@.len() as i64,
                    combos: texts(names@),
                },
                Some(d) => NoticeView::ExpiringCombosAlert {
                    cantidad_por_vencer: names@.len() as i64,
                    dias_restantes: d,
                    combos: texts(names@),
                },
            },
        ),
{
    let ghost notice = match days {
        None => NoticeView::ExpiredCombosAlert {
            cantidad_vencidos: names@.len() as i64,
            combos: texts(names@),
        },
        Some(d) => NoticeView::ExpiringCombosAlert {
            cantidad_por_vencer: names@.len() as i64,
            dias_restantes: d,
            combos: texts(names@),
        },
    };
    let ghost start = dispatch_views(out@);
    let firsts = first_occurrences(names);
    let count = names.len() as i64;
    let mut k: usize = 0;
    while k < firsts.len()
        invariant
            k <= firsts@.len(),
            count == names@.len(),
            dispatch_views(out@) == start + alert_pairs(k as nat, notice),
            notice == (match days {
                None => NoticeView::ExpiredCombosAlert {
                    cantidad_vencidos: names@.len() as i64,
                    combos: texts(names@),
                },
                Some(d) => NoticeView::ExpiringCombosAlert {
                    cantidad_por_vencer: names@.len() as i64,
                    dias_restantes: d,
                    combos: texts(names@),
                },
            }),
        decreases firsts@.len() - k,
    {
        let ghost mid = dispatch_views(out@);
        for r in 0..2usize
            invariant
                dispatch_views(out@) == mid + alternating(r as nat, notice),
                count == names@.len(),
                notice == (match days {
                    None => NoticeView::ExpiredCombosAlert {
                        cantidad_vencidos: names@.len() as i64,
                        combos: texts(names@),
                    },
                    Some(d) => NoticeView::ExpiringCombosAlert {
                        cantidad_por_vencer: names@.len() as i64,
                        dias_restantes: d,
                        combos: texts(names@),
                    },
                }),
        {
            let message = match days {
                None => Notification::ExpiredCombosAlert { cantidad_vencidos: count, combos: copy_texts(names) },
                Some(d) => Notification::ExpiringCombosAlert {
                    cantidad_por_vencer: count,
                    dias_restantes: d,
                    combos: copy_texts(names),
                },
            };
            let roles = if r == 0 { only(UserRole::Supervisor) } else { only(UserRole::Admin) };
            emit(out, message, roles);
            assert(dispatch_views(out@) =~= mid + alternating((r + 1) as nat, notice));
        }
        assert(start + alert_pairs((k + 1) as nat, notice) =~= mid + alternating(2, notice));
        k = k + 1;
    }
}

/// Plans one round of the promotions check (see `combo_dispatches`).
pub fn combo_alerts(vencidos: &Vec<String>, por_vencer: &Vec<String>, dias_restantes: i32) -> (out: Vec<
    Dispatch,
>)
    requires
        vencidos@.len() <= i64::MAX,
        por_vencer@.len() <= i64::MAX,
    ensures
        dispatch_views(out@) == combo_dispatches(texts(vencidos@), texts(por_vencer@), dias_restantes),
{
    let mut out: Vec<Dispatch> = Vec::new();
    assert(dispatch_views(out@) =~= Seq::<DispatchView>::empty());
    push_alert_pairs(&mut out, vencidos, None);
    push_alert_pairs(&mut out, por_vencer, Some(dias_restantes));
    assert(dispatch_views(out@) =~= combo_dispatches(texts(vencidos@), texts(por_vencer@), dias_restantes));
    out
}

} // verus!
