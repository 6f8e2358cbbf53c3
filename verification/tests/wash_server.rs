use wash_server::messages::{Dispatch, MessageKind, Notification, UserRole};
use wash_server::models::{Sale, StatusPayments, WashingStatus};
use wash_server::monitor::{combo_alerts, first_occurrences, SalesMonitor};
use wash_server::server::WashServer;
use wash_server::session::{role_from_name, role_from_query, should_receive_message};

const ALL_ROLES: [UserRole; 4] = [
    UserRole::Admin,
    UserRole::Supervisor,
    UserRole::Cliente,
    UserRole::Cajero,
];

fn sale(id: i32, vehicle: i32, client: i32, paid: StatusPayments, washing: WashingStatus) -> Sale {
    Sale {
        id,
        clientid: client,
        vehicleid: vehicle,
        paymentmethodid: 1,
        statussale: paid,
        stateuswashing: washing,
        saledate: chrono::NaiveDateTime::default(),
        initial_state: None,
        invoice_number: None,
    }
}

fn kinds_for(out: &[Dispatch], role: UserRole) -> Vec<MessageKind> {
    out.iter()
        .filter(|d| d.roles.contains(&role) && should_receive_message(&role, &d.message.kind()))
        .map(|d| d.message.kind())
        .collect()
}

fn count(kinds: &[MessageKind], kind: MessageKind) -> usize {
    kinds.iter().filter(|k| **k == kind).count()
}

fn seed() -> Vec<Sale> {
    vec![
        sale(90001, 1, 11, StatusPayments::Waiting, WashingStatus::EnEspera),
        sale(90002, 2, 12, StatusPayments::Waiting, WashingStatus::EnEspera),
        sale(90003, 3, 13, StatusPayments::Paid, WashingStatus::EnProceso),
        sale(90004, 4, 14, StatusPayments::Paid, WashingStatus::Completado),
        sale(90005, 5, 15, StatusPayments::Paid, WashingStatus::EnProceso),
    ]
}

#[test]
fn display_labels() {
    assert_eq!(WashingStatus::EnEspera.display(), "En espera");
    assert_eq!(WashingStatus::EnProceso.display(), "En proceso");
    assert_eq!(WashingStatus::Completado.display(), "Completado");
    assert_eq!(WashingStatus::Cancelado.display(), "Cancelado");
}

#[test]
fn filter_matches_role_table() {
    let expect = |kind: MessageKind, roles: &[UserRole]| {
        for r in ALL_ROLES {
            assert_eq!(should_receive_message(&r, &kind), roles.contains(&r), "{:?} {:?}", kind, r);
        }
    };
    expect(MessageKind::Chat, &ALL_ROLES);
    expect(MessageKind::Ping, &ALL_ROLES);
    expect(MessageKind::WashStatusUpdate, &[UserRole::Admin, UserRole::Supervisor, UserRole::Cajero]);
    expect(MessageKind::NewSale, &[UserRole::Admin, UserRole::Supervisor, UserRole::Cajero]);
    expect(MessageKind::SupervisorSalesSummary, &[UserRole::Supervisor]);
    expect(MessageKind::SupervisorSaleStateChanged, &[UserRole::Supervisor]);
    expect(MessageKind::UnpaidSalesAlert, &[UserRole::Supervisor, UserRole::Cajero]);
    expect(MessageKind::ExpiredCombosAlert, &[UserRole::Admin, UserRole::Supervisor]);
    expect(MessageKind::ExpiringCombosAlert, &[UserRole::Admin, UserRole::Supervisor]);
    expect(MessageKind::PaymentReceived, &[UserRole::Admin, UserRole::Cajero]);
    expect(MessageKind::PendingPaymentReminder, &[UserRole::Cajero]);
    expect(MessageKind::CashierDailySummary, &[UserRole::Cajero]);
    for k in [MessageKind::VehiclePending, MessageKind::VehicleInProgress, MessageKind::VehicleReady, MessageKind::VehicleCanceled, MessageKind::AssignedLavador] {
        expect(k, &[UserRole::Cliente]);
    }
    expect(MessageKind::NewAssignment, &[UserRole::Supervisor]);
    expect(MessageKind::StockAlert, &[UserRole::Admin]);
    expect(MessageKind::UrgentPurchase, &[UserRole::Admin]);
}

#[test]
fn client_is_filtered_from_staff_events() {
    for k in [MessageKind::SupervisorSalesSummary, MessageKind::PendingPaymentReminder, MessageKind::NewSale] {
        assert!(!should_receive_message(&UserRole::Cliente, &k));
    }
}

#[test]
fn role_from_query_reads_role_pair() {
    assert_eq!(role_from_query("role=cajero"), UserRole::Cajero);
    assert_eq!(role_from_query("role=admin"), UserRole::Admin);
    assert_eq!(role_from_query("role=cliente"), UserRole::Cliente);
    assert_eq!(role_from_query("role=supervisor"), UserRole::Supervisor);
    assert_eq!(role_from_query("token=abc&role=cliente"), UserRole::Cliente);
}

#[test]
fn role_from_query_lowercases_value() {
    assert_eq!(role_from_query("role=CAJERO"), UserRole::Cajero);
    assert_eq!(role_from_query("role=Admin"), UserRole::Admin);
}

#[test]
fn role_from_query_defaults_to_supervisor() {
    assert_eq!(role_from_query(""), UserRole::Supervisor);
    assert_eq!(role_from_query("token=abc"), UserRole::Supervisor);
    assert_eq!(role_from_query("role"), UserRole::Supervisor);
    assert_eq!(role_from_query("role=jefe"), UserRole::Supervisor);
    assert_eq!(role_from_query("role=admin=1"), UserRole::Supervisor);
    assert_eq!(role_from_query("x=role=admin"), UserRole::Supervisor);
}

#[test]
fn role_from_query_uses_first_role_pair() {
    assert_eq!(role_from_query("role=cajero&role=admin"), UserRole::Cajero);
    assert_eq!(role_from_query("role=nadie&role=admin"), UserRole::Supervisor);
    assert_eq!(role_from_query("role&role=admin"), UserRole::Admin);
}

#[test]
fn role_names() {
    assert_eq!(role_from_name("admin"), Some(UserRole::Admin));
    assert_eq!(role_from_name("cajero"), Some(UserRole::Cajero));
    assert_eq!(role_from_name("Cajero"), None);
    assert_eq!(role_from_name(""), None);
}

#[test]
fn broadcast_reaches_only_the_role() {
    let mut server: WashServer<u32> = WashServer::new();
    let (tx1, mut rx1) = tokio::sync::mpsc::unbounded_channel::<u32>();
    let (tx2, mut rx2) = tokio::sync::mpsc::unbounded_channel::<u32>();
    let (tx3, mut rx3) = tokio::sync::mpsc::unbounded_channel::<u32>();
    server.connexion(1, tx1, UserRole::Supervisor);
    server.connexion(2, tx2, UserRole::Cajero);
    server.connexion(3, tx3, UserRole::Supervisor);
    let mut sent = server.broadcast_to_role(7, UserRole::Supervisor);
    sent.sort();
    assert_eq!(sent, vec![1, 3]);
    assert_eq!(rx1.try_recv().ok(), Some(7));
    assert_eq!(rx3.try_recv().ok(), Some(7));
    assert!(rx2.try_recv().is_err());
}

#[test]
fn broadcast_to_several_roles() {
    let mut server: WashServer<u32> = WashServer::new();
    let (tx1, mut rx1) = tokio::sync::mpsc::unbounded_channel::<u32>();
    let (tx2, mut rx2) = tokio::sync::mpsc::unbounded_channel::<u32>();
    let (tx3, mut rx3) = tokio::sync::mpsc::unbounded_channel::<u32>();
    server.connexion(1, tx1, UserRole::Supervisor);
    server.connexion(2, tx2, UserRole::Cajero);
    server.connexion(3, tx3, UserRole::Cliente);
    let mut sent = server.broadcast_to_roles(9, &[UserRole::Supervisor, UserRole::Cajero]);
    sent.sort();
    assert_eq!(sent, vec![1, 2]);
    assert_eq!(rx1.try_recv().ok(), Some(9));
    assert_eq!(rx2.try_recv().ok(), Some(9));
    assert!(rx3.try_recv().is_err());
    assert!(server.broadcast_to_roles(9, &[]).is_empty());
}

#[test]
fn disconnected_session_gets_nothing() {
    let mut server: WashServer<u32> = WashServer::new();
    let (tx1, _rx1) = tokio::sync::mpsc::unbounded_channel::<u32>();
    let (tx2, _rx2) = tokio::sync::mpsc::unbounded_channel::<u32>();
    server.connexion(1, tx1, UserRole::Admin);
    server.connexion(2, tx2, UserRole::Admin);
    server.deconnexion(1);
    server.deconnexion(42);
    assert_eq!(server.broadcast_to_role(1, UserRole::Admin), vec![2]);
    assert_eq!(server.broadcast_to_roles(1, &ALL_ROLES), vec![2]);
}

#[test]
fn reconnecting_replaces_role() {
    let mut server: WashServer<u32> = WashServer::new();
    let (tx1, _rx1) = tokio::sync::mpsc::unbounded_channel::<u32>();
    let (tx2, _rx2) = tokio::sync::mpsc::unbounded_channel::<u32>();
    server.connexion(5, tx1, UserRole::Admin);
    server.connexion(5, tx2, UserRole::Cliente);
    assert!(server.broadcast_to_role(1, UserRole::Admin).is_empty());
    assert_eq!(server.broadcast_to_role(1, UserRole::Cliente), vec![5]);
}

#[test]
fn closed_receiver_is_still_listed() {
    let mut server: WashServer<u32> = WashServer::new();
    let (tx, rx) = tokio::sync::mpsc::unbounded_channel::<u32>();
    drop(rx);
    server.connexion(1, tx, UserRole::Cajero);
    assert_eq!(server.broadcast_to_role(3, UserRole::Cajero), vec![1]);
}

#[test]
fn first_poll_announces_seed() {
    let mut monitor = SalesMonitor::new();
    let out = monitor.poll(&seed());
    let sup = kinds_for(&out, UserRole::Supervisor);
    assert_eq!(count(&sup, MessageKind::WashStatusUpdate), 5);
    assert_eq!(count(&sup, MessageKind::NewSale), 5);
    assert_eq!(count(&sup, MessageKind::SupervisorSalesSummary), 1);
    assert_eq!(count(&sup, MessageKind::UnpaidSalesAlert), 1);
    let caj = kinds_for(&out, UserRole::Cajero);
    assert_eq!(count(&caj, MessageKind::NewSale), 5);
    assert_eq!(count(&caj, MessageKind::PendingPaymentReminder), 2);
    assert_eq!(count(&caj, MessageKind::CashierDailySummary), 1);
    assert_eq!(count(&caj, MessageKind::UnpaidSalesAlert), 1);
    assert_eq!(count(&caj, MessageKind::SupervisorSalesSummary), 0);
    let cli = kinds_for(&out, UserRole::Cliente);
    assert_eq!(cli, vec![MessageKind::VehiclePending, MessageKind::VehiclePending]);
    assert!(kinds_for(&out, UserRole::Admin).is_empty());
    assert_eq!(out.len(), 5 * 2 + 2 + 2 + 3);
}

#[test]
fn first_poll_messages_in_order() {
    let mut monitor = SalesMonitor::new();
    let out = monitor.poll(&vec![sale(7, 42, 3, StatusPayments::Waiting, WashingStatus::EnEspera)]);
    assert_eq!(out.len(), 7);
    match &out[0].message {
        Notification::WashStatusUpdate { sale_id, placa, nuevo_estado } => {
            assert_eq!(*sale_id, 7);
            assert_eq!(placa, "Vehículo #42");
            assert_eq!(nuevo_estado, "En espera");
        }
        other => panic!("unexpected {:?}", other),
    }
    assert_eq!(out[0].roles, vec![UserRole::Supervisor]);
    match &out[1].message {
        Notification::NewSale { sale_id, tipo_vehiculo, servicios } => {
            assert_eq!(*sale_id, 7);
            assert_eq!(tipo_vehiculo, "Vehículo");
            assert_eq!(servicios, &vec!["Lavado".to_string()]);
        }
        other => panic!("unexpected {:?}", other),
    }
    assert_eq!(out[1].roles, vec![UserRole::Supervisor, UserRole::Cajero]);
    match &out[2].message {
        Notification::VehiclePending { placa, nombre_servicio } => {
            assert_eq!(placa, "Vehículo #42");
            assert_eq!(nombre_servicio, "Lavado");
        }
        other => panic!("unexpected {:?}", other),
    }
    assert_eq!(out[2].roles, vec![UserRole::Cliente]);
    match &out[3].message {
        Notification::PendingPaymentReminder { sale_id, nombre_cliente, dias_pendiente } => {
            assert_eq!(*sale_id, 7);
            assert_eq!(nombre_cliente, "Cliente #3");
            assert_eq!(*dias_pendiente, 0);
        }
        other => panic!("unexpected {:?}", other),
    }
    assert_eq!(out[3].roles, vec![UserRole::Cajero]);
    match &out[4].message {
        Notification::SupervisorSalesSummary { pendientes, en_proceso, completadas, canceladas } => {
            assert_eq!((*pendientes, *en_proceso, *completadas, *canceladas), (1, 0, 0, 0));
        }
        other => panic!("unexpected {:?}", other),
    }
    match &out[5].message {
        Notification::CashierDailySummary { cantidad_pendientes, cantidad_transacciones } => {
            assert_eq!((*cantidad_pendientes, *cantidad_transacciones), (1, 1));
        }
        other => panic!("unexpected {:?}", other),
    }
    match &out[6].message {
        Notification::UnpaidSalesAlert { cantidad_sin_pagar } => assert_eq!(*cantidad_sin_pagar, 1),
        other => panic!("unexpected {:?}", other),
    }
    assert_eq!(out[6].roles, vec![UserRole::Supervisor, UserRole::Cajero]);
}

#[test]
fn transitions_are_reported() {
    let mut monitor = SalesMonitor::new();
    monitor.poll(&seed());
    let changed = vec![
        sale(90001, 1, 11, StatusPayments::Waiting, WashingStatus::EnProceso),
        sale(90002, 2, 12, StatusPayments::Waiting, WashingStatus::Completado),
        sale(90003, 3, 13, StatusPayments::Paid, WashingStatus::Cancelado),
        sale(90004, 4, 14, StatusPayments::Paid, WashingStatus::Completado),
        sale(90005, 5, 15, StatusPayments::Paid, WashingStatus::EnProceso),
    ];
    let out = monitor.poll(&changed);
    let sup = kinds_for(&out, UserRole::Supervisor);
    assert_eq!(count(&sup, MessageKind::SupervisorSaleStateChanged), 3);
    assert_eq!(count(&sup, MessageKind::WashStatusUpdate), 0);
    assert_eq!(count(&sup, MessageKind::SupervisorSalesSummary), 1);
    let cli = kinds_for(&out, UserRole::Cliente);
    assert_eq!(
        cli,
        vec![MessageKind::VehicleInProgress, MessageKind::VehicleReady, MessageKind::VehicleCanceled]
    );
    match &out[0].message {
        Notification::SupervisorSaleStateChanged { sale_id, estado_anterior, estado_actual } => {
            assert_eq!(*sale_id, 90001);
            assert_eq!(estado_anterior, "En espera");
            assert_eq!(estado_actual, "En proceso");
        }
        other => panic!("unexpected {:?}", other),
    }
    match &out[1].message {
        Notification::VehicleInProgress { placa, nombre_servicio } => {
            assert_eq!(placa, "Vehículo #1");
            assert_eq!(nombre_servicio, "Lavado en proceso");
        }
        other => panic!("unexpected {:?}", other),
    }
    match &out[3].message {
        Notification::VehicleReady { placa, nombre_servicio } => {
            assert_eq!(placa, "Vehículo #2");
            assert_eq!(nombre_servicio, "Lavado completado");
        }
        other => panic!("unexpected {:?}", other),
    }
    match &out[5].message {
        Notification::VehicleCanceled { placa, nombre_servicio, motivo } => {
            assert_eq!(placa, "Vehículo #3");
            assert_eq!(nombre_servicio, "Lavado");
            assert_eq!(motivo, "Cancelado por el supervisor");
        }
        other => panic!("unexpected {:?}", other),
    }
    match &out[6].message {
        Notification::SupervisorSalesSummary { pendientes, en_proceso, completadas, canceladas } => {
            assert_eq!((*pendientes, *en_proceso, *completadas, *canceladas), (0, 2, 2, 1));
        }
        other => panic!("unexpected {:?}", other),
    }
}

#[test]
fn back_to_waiting_notifies_supervisor_only() {
    let mut monitor = SalesMonitor::new();
    monitor.poll(&vec![sale(1, 1, 1, StatusPayments::Paid, WashingStatus::EnProceso)]);
    let out = monitor.poll(&vec![sale(1, 1, 1, StatusPayments::Paid, WashingStatus::EnEspera)]);
    let kinds: Vec<MessageKind> = out.iter().map(|d| d.message.kind()).collect();
    assert_eq!(kinds[0], MessageKind::SupervisorSaleStateChanged);
    assert!(kinds_for(&out, UserRole::Cliente).is_empty());
}

#[test]
fn unchanged_table_is_quiet() {
    let mut monitor = SalesMonitor::new();
    assert!(!monitor.poll(&seed()).is_empty());
    assert!(monitor.poll(&seed()).is_empty());
    assert!(monitor.poll(&seed()).is_empty());
}

#[test]
fn sale_announced_once() {
    let mut monitor = SalesMonitor::new();
    monitor.poll(&vec![sale(3, 1, 1, StatusPayments::Paid, WashingStatus::EnEspera)]);
    let out = monitor.poll(&vec![
        sale(3, 1, 1, StatusPayments::Paid, WashingStatus::EnEspera),
        sale(4, 2, 2, StatusPayments::Paid, WashingStatus::EnEspera),
    ]);
    let updates: Vec<i32> = out
        .iter()
        .filter_map(|d| match &d.message {
            Notification::WashStatusUpdate { sale_id, .. } => Some(*sale_id),
            _ => None,
        })
        .collect();
    assert_eq!(updates, vec![4]);
}

#[test]
fn duplicate_id_in_one_poll_announced_once() {
    let mut monitor = SalesMonitor::new();
    let out = monitor.poll(&vec![
        sale(3, 1, 1, StatusPayments::Paid, WashingStatus::EnEspera),
        sale(3, 1, 1, StatusPayments::Paid, WashingStatus::Completado),
    ]);
    assert_eq!(count(&kinds_for(&out, UserRole::Supervisor), MessageKind::WashStatusUpdate), 1);
}

#[test]
fn empty_table_forgets_states() {
    let mut monitor = SalesMonitor::new();
    monitor.poll(&vec![sale(1, 1, 1, StatusPayments::Paid, WashingStatus::EnEspera)]);
    assert!(monitor.poll(&vec![]).is_empty());
    let out = monitor.poll(&vec![sale(1, 1, 1, StatusPayments::Paid, WashingStatus::Completado)]);
    let kinds: Vec<MessageKind> = out.iter().map(|d| d.message.kind()).collect();
    assert_eq!(
        kinds,
        vec![
            MessageKind::SupervisorSalesSummary,
            MessageKind::CashierDailySummary,
            MessageKind::UnpaidSalesAlert
        ]
    );
}

#[test]
fn summary_counts_every_sale() {
    let mut monitor = SalesMonitor::new();
    let mut sales = seed();
    sales.push(sale(90006, 6, 16, StatusPayments::Cancelled, WashingStatus::Cancelado));
    let out = monitor.poll(&sales);
    let mut seen = false;
    for d in &out {
        if let Notification::CashierDailySummary { cantidad_pendientes, cantidad_transacciones } = &d.message {
            assert_eq!(*cantidad_pendientes, 2);
            assert_eq!(*cantidad_transacciones, 6);
            seen = true;
        }
        if let Notification::SupervisorSalesSummary { pendientes, en_proceso, completadas, canceladas } = &d.message {
            assert_eq!((*pendientes, *en_proceso, *completadas, *canceladas), (2, 2, 1, 1));
        }
    }
    assert!(seen);
}

#[test]
fn plate_numbers_are_decimal() {
    let mut monitor = SalesMonitor::new();
    let out = monitor.poll(&vec![
        sale(1, 0, -7, StatusPayments::Waiting, WashingStatus::EnProceso),
        sale(2, -123, 1, StatusPayments::Paid, WashingStatus::EnProceso),
        sale(3, i32::MIN, 1, StatusPayments::Paid, WashingStatus::EnProceso),
        sale(4, i32::MAX, 1, StatusPayments::Paid, WashingStatus::EnProceso),
    ]);
    let plates: Vec<String> = out
        .iter()
        .filter_map(|d| match &d.message {
            Notification::WashStatusUpdate { placa, .. } => Some(placa.clone()),
            _ => None,
        })
        .collect();
    assert_eq!(
        plates,
        vec![
            "Vehículo #0".to_string(),
            "Vehículo #-123".to_string(),
            "Vehículo #-2147483648".to_string(),
            "Vehículo #2147483647".to_string()
        ]
    );
    let clients: Vec<String> = out
        .iter()
        .filter_map(|d| match &d.message {
            Notification::PendingPaymentReminder { nombre_cliente, .. } => Some(nombre_cliente.clone()),
            _ => None,
        })
        .collect();
    assert_eq!(clients, vec!["Cliente #-7".to_string()]);
}

#[test]
fn cashier_never_sees_summary_or_ready() {
    let mut monitor = SalesMonitor::new();
    monitor.poll(&seed());
    let mut sales = seed();
    sales[0].stateuswashing = WashingStatus::Completado;
    let out = monitor.poll(&sales);
    let caj = kinds_for(&out, UserRole::Cajero);
    assert_eq!(count(&caj, MessageKind::SupervisorSalesSummary), 0);
    assert_eq!(count(&caj, MessageKind::VehicleReady), 0);
    assert!(kinds_for(&out, UserRole::Admin).is_empty());
}

#[test]
fn first_occurrences_dedupes() {
    let names: Vec<String> = vec!["Shampoo".into(), "Cera".into(), "Shampoo".into(), "Cera".into(), "Agua".into()];
    assert_eq!(first_occurrences(&names), vec![0, 1, 4]);
    assert_eq!(first_occurrences(&vec![]), Vec::<usize>::new());
}

#[test]
fn every_dispatch_passes_the_filter() {
    let mut monitor = SalesMonitor::new();
    let mut all = monitor.poll(&seed());
    let mut sales = seed();
    sales[0].stateuswashing = WashingStatus::Cancelado;
    sales[1].stateuswashing = WashingStatus::EnProceso;
    sales[2].stateuswashing = WashingStatus::Completado;
    all.extend(monitor.poll(&sales));
    assert!(!all.is_empty());
    for d in &all {
        for r in &d.roles {
            assert!(should_receive_message(r, &d.message.kind()), "{:?} to {:?}", d.message, r);
        }
    }
}

#[test]
fn summary_not_repeated_when_counts_equal() {
    let mut monitor = SalesMonitor::new();
    monitor.poll(&vec![
        sale(1, 1, 1, StatusPayments::Paid, WashingStatus::EnEspera),
        sale(2, 2, 2, StatusPayments::Paid, WashingStatus::Completado),
    ]);
    let out = monitor.poll(&vec![
        sale(1, 1, 1, StatusPayments::Paid, WashingStatus::Completado),
        sale(2, 2, 2, StatusPayments::Paid, WashingStatus::EnEspera),
    ]);
    let kinds: Vec<MessageKind> = out.iter().map(|d| d.message.kind()).collect();
    assert_eq!(
        kinds,
        vec![
            MessageKind::SupervisorSaleStateChanged,
            MessageKind::VehicleReady,
            MessageKind::SupervisorSaleStateChanged
        ]
    );
}

#[test]
fn repeated_role_sends_one_copy() {
    let mut server: WashServer<u32> = WashServer::new();
    let (tx1, mut rx1) = tokio::sync::mpsc::unbounded_channel::<u32>();
    let (tx2, mut rx2) = tokio::sync::mpsc::unbounded_channel::<u32>();
    server.connexion(1, tx1, UserRole::Supervisor);
    server.connexion(2, tx2, UserRole::Cajero);
    let mut sent = server.broadcast_to_roles(
        4,
        &[UserRole::Cajero, UserRole::Supervisor, UserRole::Cajero],
    );
    sent.sort();
    assert_eq!(sent, vec![1, 2]);
    assert_eq!(rx1.try_recv().ok(), Some(4));
    assert!(rx1.try_recv().is_err());
    assert_eq!(rx2.try_recv().ok(), Some(4));
    assert!(rx2.try_recv().is_err());
}

#[test]
fn closed_receiver_does_not_stop_others() {
    let mut server: WashServer<u32> = WashServer::new();
    let (tx1, rx1) = tokio::sync::mpsc::unbounded_channel::<u32>();
    let (tx2, mut rx2) = tokio::sync::mpsc::unbounded_channel::<u32>();
    drop(rx1);
    server.connexion(1, tx1, UserRole::Cliente);
    server.connexion(2, tx2, UserRole::Cliente);
    let mut sent = server.broadcast_to_role(8, UserRole::Cliente);
    sent.sort();
    assert_eq!(sent, vec![1, 2]);
    assert_eq!(rx2.try_recv().ok(), Some(8));
    let mut again = server.broadcast_to_role(9, UserRole::Cliente);
    again.sort();
    assert_eq!(again, vec![1, 2]);
}

#[test]
fn single_role_equals_one_element_list() {
    let mut server: WashServer<u32> = WashServer::new();
    let mut receivers = Vec::new();
    for id in 0..6usize {
        let (tx, rx) = tokio::sync::mpsc::unbounded_channel::<u32>();
        receivers.push(rx);
        server.connexion(id, tx, ALL_ROLES[id % 4]);
    }
    for r in ALL_ROLES {
        let mut a = server.broadcast_to_role(1, r);
        let mut b = server.broadcast_to_roles(1, &[r]);
        a.sort();
        b.sort();
        assert_eq!(a, b);
    }
}

#[test]
fn combo_alerts_go_to_supervisors_then_admins() {
    let vencidos: Vec<String> = vec!["Combo A".into(), "Combo B".into(), "Combo A".into()];
    let por_vencer: Vec<String> = vec!["Combo C".into()];
    let out = combo_alerts(&vencidos, &por_vencer, 3);
    assert_eq!(out.len(), 6);
    for (i, d) in out.iter().enumerate() {
        let expected = if i % 2 == 0 { UserRole::Supervisor } else { UserRole::Admin };
        assert_eq!(d.roles, vec![expected]);
        assert!(should_receive_message(&expected, &d.message.kind()));
    }
    for d in &out[..4] {
        match &d.message {
            Notification::ExpiredCombosAlert { cantidad_vencidos, combos } => {
                assert_eq!(*cantidad_vencidos, 3);
                assert_eq!(combos, &vencidos);
            }
            other => panic!("unexpected {:?}", other),
        }
    }
    for d in &out[4..] {
        match &d.message {
            Notification::ExpiringCombosAlert { cantidad_por_vencer, dias_restantes, combos } => {
                assert_eq!((*cantidad_por_vencer, *dias_restantes), (1, 3));
                assert_eq!(combos, &por_vencer);
            }
            other => panic!("unexpected {:?}", other),
        }
    }
    assert!(combo_alerts(&vec![], &vec![], 3).is_empty());
}

#[test]
fn role_from_query_ignores_ascii_case() {
    assert_eq!(role_from_query("role=SuPeRvIsOr"), UserRole::Supervisor);
    assert_eq!(role_from_query("a=b&role=CLIENTE"), UserRole::Cliente);
}
