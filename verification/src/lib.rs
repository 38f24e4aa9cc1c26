//! Identity, pairing and artifact-path logic of the Kirin measurement plug-ins, with the
//! properties that keep restored identities inside their base directory and keep PRE/POST
//! pairing unambiguous.
use vstd::prelude::*;

pub mod plugin_data;
pub mod record_gate;
pub mod pair_gate;
pub mod late_expected;
pub mod pair_finalize;
pub mod annotations;
pub mod writer;
pub mod drop_reconcile;
pub mod text;
pub mod path_model;
pub mod clock;
pub mod path_identity;
pub mod perceptual;
pub mod perceptual_exchange_codec;
pub mod pairing_scope;

verus! {

} // verus!
