use vstd::prelude::*;

verus! {

/// Washing state of a sale, stored in the database as `W`, `I`, `D` or `C`.
#[derive(Debug, Clone, Copy, PartialEq, Eq, Structural)]
pub enum WashingStatus {
    EnEspera,
    EnProceso,
    Completado,
    Cancelado,
}

impl WashingStatus {
    /// The human-readable label of each washing state.
    pub open spec fn label(self) -> Seq<char> {
        match self {
            WashingStatus::EnEspera => "En espera"@,
            WashingStatus::EnProceso => "En proceso"@,
            WashingStatus::Completado => "Completado"@,
            WashingStatus::Cancelado => "Cancelado"@,
        }
    }

    /// Label shown to users for this washing state.
    pub fn display(&self) -> (s: &'static str)
        ensures
            s@ == self.label(),
    {
        match self {
            WashingStatus::EnEspera => "En espera",
            WashingStatus::EnProceso => "En proceso",
            WashingStatus::Completado => "Completado",
            WashingStatus::Cancelado => "Cancelado",
        }
    }
}

/// Payment state of a sale, stored in the database as `W`, `P` or `C`.
#[derive(Debug, Clone, Copy, PartialEq, Eq, Structural)]
pub enum StatusPayments {
    Waiting,
    Paid,
    Cancelled,
}

/// A calendar date and time without a time zone, carried through unchanged.
#[verifier::external_type_specification]
#[verifier::external_body]
pub struct ExNaiveDateTime(chrono::NaiveDateTime);

/// A row of the `clients` table.
#[derive(Debug)]
pub struct Client {
    pub id: i32,
    pub names: String,
    pub lastnames: String,
    pub phone: Option<String>,
    pub ci: String,
}

/// A row of the `sales` table.
#[derive(Debug)]
pub struct Sale {
    pub id: i32,
    pub clientid: i32,
    pub vehicleid: i32,
    pub paymentmethodid: i32,
    pub statussale: StatusPayments,
    pub stateuswashing: WashingStatus,
    pub saledate: chrono::NaiveDateTime,
    pub initial_state: Option<String>,
    pub invoice_number: Option<String>,
}

/// Number of sales found in one washing state.
#[derive(Debug)]
pub struct SupervisorStatusCounter {
    pub status: String,
    pub total: i64,
}

} // verus!
