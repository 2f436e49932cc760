//! Five contracts of a market for language data: commissions with escrowed
//! bounties, a dataset registry, a quality oracle, a license router and a
//! royalty splitter.

pub mod data_commission;
pub mod dataset_registry;
pub mod dummy;
pub mod governance;
pub mod host;
pub mod license_router;
pub mod quality_oracle;
pub mod royalty_splitter;
pub mod sums;
pub mod table;
pub mod text;
