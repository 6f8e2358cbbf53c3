use vstd::prelude::*;

verus! {

/// The four roles of the system; each connected session has exactly one.
#[derive(Debug, Clone, Copy, PartialEq, Eq, Hash, Structural)]
pub enum UserRole {
    /// Full administration: prices, stock, users, configuration.
    Admin,
    /// Operations lead: assigns washers, changes states, supervises sales.
    Supervisor,
    /// End customer: owner of the vehicle, notified about its wash.
    Cliente,
    /// Cashier: processes payments, issues invoices, follows unpaid sales.
    Cajero,
}

/// The event type of a real-time message (the `type` tag of its JSON form).
#[derive(Debug, Clone, Copy, PartialEq, Eq, Structural)]
pub enum MessageKind {
    Chat,
    WashStatusUpdate,
    StockAlert,
    NewSale,
    SupervisorSalesSummary,
    SupervisorSaleStateChanged,
    UrgentPurchase,
    UnpaidSalesAlert,
    ExpiredCombosAlert,
    ExpiringCombosAlert,
    PaymentReceived,
    PendingPaymentReminder,
    CashierDailySummary,
    VehiclePending,
    VehicleInProgress,
    VehicleReady,
    VehicleCanceled,
    AssignedLavador,
    NewAssignment,
    Ping,
}

/// The roles that a session may deliver a message of the given type to.
pub open spec fn kind_audience(kind: MessageKind) -> Set<UserRole> {
    match kind {
        MessageKind::Chat | MessageKind::Ping => set![
            UserRole::Admin,
            UserRole::Supervisor,
            UserRole::Cliente,
            UserRole::Cajero,
        ],
        MessageKind::WashStatusUpdate | MessageKind::NewSale => set![
            UserRole::Admin,
            UserRole::Supervisor,
            UserRole::Cajero,
        ],
        MessageKind::SupervisorSalesSummary | MessageKind::SupervisorSaleStateChanged => set![
            UserRole::Supervisor,
        ],
        MessageKind::UnpaidSalesAlert => set![UserRole::Supervisor, UserRole::Cajero],
        MessageKind::ExpiredCombosAlert | MessageKind::ExpiringCombosAlert => set![
            UserRole::Admin,
            UserRole::Supervisor,
        ],
        MessageKind::PaymentReceived => set![UserRole::Admin, UserRole::Cajero],
        MessageKind::PendingPaymentReminder | MessageKind::CashierDailySummary => set![
            UserRole::Cajero,
        ],
        MessageKind::VehiclePending
        | MessageKind::VehicleInProgress
        | MessageKind::VehicleReady
        | MessageKind::VehicleCanceled
        | MessageKind::AssignedLavador => set![UserRole::Cliente],
        MessageKind::NewAssignment => set![UserRole::Supervisor],
        MessageKind::StockAlert | MessageKind::UrgentPurchase => set![UserRole::Admin],
    }
}

/// A notification produced by the monitors, with every field the client
/// sees except the monetary amounts, which the sales monitor always reports
/// as zero and which the JSON form fills in.
#[derive(Debug)]
pub enum Notification {
    WashStatusUpdate { sale_id: i32, placa: String, nuevo_estado: String },
    NewSale { sale_id: i32, tipo_vehiculo: String, servicios: Vec<String> },
    SupervisorSalesSummary { pendientes: i64, en_proceso: i64, completadas: i64, canceladas: i64 },
    SupervisorSaleStateChanged { sale_id: i32, estado_anterior: String, estado_actual: String },
    UnpaidSalesAlert { cantidad_sin_pagar: i64 },
    PendingPaymentReminder { sale_id: i32, nombre_cliente: String, dias_pendiente: i32 },
    CashierDailySummary { cantidad_pendientes: i64, cantidad_transacciones: i64 },
    VehiclePending { placa: String, nombre_servicio: String },
    VehicleInProgress { placa: String, nombre_servicio: String },
    VehicleReady { placa: String, nombre_servicio: String },
    VehicleCanceled { placa: String, nombre_servicio: String, motivo: String },
    ExpiredCombosAlert { cantidad_vencidos: i64, combos: Vec<String> },
    ExpiringCombosAlert { cantidad_por_vencer: i64, dias_restantes: i32, combos: Vec<String> },
}

/// The mathematical value of a `Notification`: its strings as character sequences.
pub enum NoticeView {
    WashStatusUpdate { sale_id: i32, placa: Seq<char>, nuevo_estado: Seq<char> },
    NewSale { sale_id: i32, tipo_vehiculo: Seq<char>, servicios: Seq<Seq<char>> },
    SupervisorSalesSummary { pendientes: i64, en_proceso: i64, completadas: i64, canceladas: i64 },
    SupervisorSaleStateChanged {
        sale_id: i32,
        estado_anterior: Seq<char>,
        estado_actual: Seq<char>,
    },
    UnpaidSalesAlert { cantidad_sin_pagar: i64 },
    PendingPaymentReminder { sale_id: i32, nombre_cliente: Seq<char>, dias_pendiente: i32 },
    CashierDailySummary { cantidad_pendientes: i64, cantidad_transacciones: i64 },
    VehiclePending { placa: Seq<char>, nombre_servicio: Seq<char> },
    VehicleInProgress { placa: Seq<char>, nombre_servicio: Seq<char> },
    VehicleReady { placa: Seq<char>, nombre_servicio: Seq<char> },
    VehicleCanceled { placa: Seq<char>, nombre_servicio: Seq<char>, motivo: Seq<char> },
    ExpiredCombosAlert { cantidad_vencidos: i64, combos: Seq<Seq<char>> },
    ExpiringCombosAlert { cantidad_por_vencer: i64, dias_restantes: i32, combos: Seq<Seq<char>> },
}

impl View for Notification {
    type V = NoticeView;

    open spec fn view(&self) -> NoticeView {
        match self {
            Notification::WashStatusUpdate { sale_id, placa, nuevo_estado } => {
                NoticeView::WashStatusUpdate {
                    sale_id: *sale_id,
                    placa: placa@,
                    nuevo_estado: nuevo_estado@,
                }
            },
            Notification::NewSale { sale_id, tipo_vehiculo, servicios } => NoticeView::NewSale {
                sale_id: *sale_id,
                tipo_vehiculo: tipo_vehiculo@,
                servicios: servicios@.map_values(|s: String| s@),
            },
            Notification::SupervisorSalesSummary {
                pendientes,
                en_proceso,
                completadas,
                canceladas,
            } => NoticeView::SupervisorSalesSummary {
                pendientes: *pendientes,
                en_proceso: *en_proceso,
                completadas: *completadas,
                canceladas: *canceladas,
            },
            Notification::SupervisorSaleStateChanged { sale_id, estado_anterior, estado_actual } => {
                NoticeView::SupervisorSaleStateChanged {
                    sale_id: *sale_id,
                    estado_anterior: estado_anterior@,
                    estado_actual: estado_actual@,
                }
            },
            Notification::UnpaidSalesAlert { cantidad_sin_pagar } => NoticeView::UnpaidSalesAlert {
                cantidad_sin_pagar: *cantidad_sin_pagar,
            },
            Notification::PendingPaymentReminder { sale_id, nombre_cliente, dias_pendiente } => {
                NoticeView::PendingPaymentReminder {
                    sale_id: *sale_id,
                    nombre_cliente: nombre_cliente@,
                    dias_pendiente: *dias_pendiente,
                }
            },
            Notification::CashierDailySummary { cantidad_pendientes, cantidad_transacciones } => {
                NoticeView::CashierDailySummary {
                    cantidad_pendientes: *cantidad_pendientes,
                    cantidad_transacciones: *cantidad_transacciones,
                }
            },
            Notification::VehiclePending { placa, nombre_servicio } => NoticeView::VehiclePending {
                placa: placa@,
                nombre_servicio: nombre_servicio@,
            },
            Notification::VehicleInProgress { placa, nombre_servicio } => {
                NoticeView::VehicleInProgress { placa: placa@, nombre_servicio: nombre_servicio@ }
            },
            Notification::VehicleReady { placa, nombre_servicio } => NoticeView::VehicleReady {
                placa: placa@,
                nombre_servicio: nombre_servicio@,
            },
            Notification::VehicleCanceled { placa, nombre_servicio, motivo } => {
                NoticeView::VehicleCanceled {
                    placa: placa@,
                    nombre_servicio: nombre_servicio@,
                    motivo: motivo@,
                }
            },
            Notification::ExpiredCombosAlert { cantidad_vencidos, combos } => {
                NoticeView::ExpiredCombosAlert {
                    cantidad_vencidos: *cantidad_vencidos,
                    combos: combos@.map_values(|s: String| s@),
                }
            },
            Notification::ExpiringCombosAlert { cantidad_por_vencer, dias_restantes, combos } => {
                NoticeView::ExpiringCombosAlert {
                    cantidad_por_vencer: *cantidad_por_vencer,
                    dias_restantes: *dias_restantes,
                    combos: combos@.map_values(|s: String| s@),
                }
            },
        }
    }
}

/// The event type of a notification.
pub open spec fn notice_kind(n: NoticeView) -> MessageKind {
    match n {
        NoticeView::WashStatusUpdate { .. } => MessageKind::WashStatusUpdate,
        NoticeView::NewSale { .. } => MessageKind::NewSale,
        NoticeView::SupervisorSalesSummary { .. } => MessageKind::SupervisorSalesSummary,
        NoticeView::SupervisorSaleStateChanged { .. } => MessageKind::SupervisorSaleStateChanged,
        NoticeView::UnpaidSalesAlert { .. } => MessageKind::UnpaidSalesAlert,
        NoticeView::PendingPaymentReminder { .. } => MessageKind::PendingPaymentReminder,
        NoticeView::CashierDailySummary { .. } => MessageKind::CashierDailySummary,
        NoticeView::VehiclePending { .. } => MessageKind::VehiclePending,
        NoticeView::VehicleInProgress { .. } => MessageKind::VehicleInProgress,
        NoticeView::VehicleReady { .. } => MessageKind::VehicleReady,
        NoticeView::VehicleCanceled { .. } => MessageKind::VehicleCanceled,
        NoticeView::ExpiredCombosAlert { .. } => MessageKind::ExpiredCombosAlert,
        NoticeView::ExpiringCombosAlert { .. } => MessageKind::ExpiringCombosAlert,
    }
}

impl Notification {
    /// The event type of this notification.
    pub fn kind(&self) -> (k: MessageKind)
        ensures
            k == notice_kind(self@),
    {
        match self {
            Notification::WashStatusUpdate { .. } => MessageKind::WashStatusUpdate,
            Notification::NewSale { .. } => MessageKind::NewSale,
            Notification::SupervisorSalesSummary { .. } => MessageKind::SupervisorSalesSummary,
            Notification::SupervisorSaleStateChanged { .. } => MessageKind::SupervisorSaleStateChanged,
            Notification::UnpaidSalesAlert { .. } => MessageKind::UnpaidSalesAlert,
            Notification::PendingPaymentReminder { .. } => MessageKind::PendingPaymentReminder,
            Notification::CashierDailySummary { .. } => MessageKind::CashierDailySummary,
            Notification::VehiclePending { .. } => MessageKind::VehiclePending,
            Notification::VehicleInProgress { .. } => MessageKind::VehicleInProgress,
            Notification::VehicleReady { .. } => MessageKind::VehicleReady,
            Notification::VehicleCanceled { .. } => MessageKind::VehicleCanceled,
            Notification::ExpiredCombosAlert { .. } => MessageKind::ExpiredCombosAlert,
            Notification::ExpiringCombosAlert { .. } => MessageKind::ExpiringCombosAlert,
        }
    }
}

/// A notification together with the roles it is broadcast to.
#[derive(Debug)]
pub struct Dispatch {
    pub message: Notification,
    pub roles: Vec<UserRole>,
}

/// The mathematical value of a `Dispatch`.
pub struct DispatchView {
    pub message: NoticeView,
    pub roles: Seq<UserRole>,
}

impl View for Dispatch {
    type V = DispatchView;

    open spec fn view(&self) -> DispatchView {
        DispatchView { message: self.message@, roles: self.roles@ }
    }
}

/// The values of a sequence of dispatches.
pub open spec fn dispatch_views(ds: Seq<Dispatch>) -> Seq<DispatchView> {
    ds.map_values(|d: Dispatch| d@)
}

} // verus!
