//! Trust and admission core of a closed peer-to-peer community.
//!
//! Every peer evaluates the same facts with the same deterministic rules:
//! signed invitations guard the first entry, vouches lift an admitted
//! identity from pending to verified, anchors bootstrap the web of trust, and
//! revocations silence an identity for good.
//!
//! The crate holds no key and keeps no clock. Whoever calls it says what
//! time it is, signs what [`invitation::signing_payload`] builds and verifies
//! what [`admission::SignatureCheck`] names.
//!
//! * [`identity`]: the public key of a participant.
//! * [`trust_graph`]: vouches and trusted anchors, and the graph that a peer
//!   builds from the facts it has gathered.
//! * [`membership`]: the trust tier of an identity.
//! * [`revocation`]: the revocation blacklist.
//! * [`invitation`]: issuing and withdrawing invitations.
//! * [`envelope`] and [`codec`]: the encodings in which an invitation
//!   travels.
//! * [`admission`]: the check of an invitation code and the admission of a
//!   new identity.
//! * [`validation`]: the verdict on single facts as they arrive.
//! * [`laws`] and [`agreement`]: what holds of all of the above, proved.
//! * [`error`]: the reasons for which an operation is refused.

pub mod admission;
pub mod agreement;
pub mod bytes;
pub mod codec;
pub mod envelope;
pub mod error;
pub mod identity;
pub mod invitation;
pub mod laws;
pub mod membership;
pub mod revocation;
pub mod seqs;
pub mod trust_graph;
pub mod validation;
