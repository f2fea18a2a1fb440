//! The ordering engine of a restaurant with table service.
//!
//! Tables, called desks here, host sessions; during a session the diners place
//! requests for dishes, each with a selection of variants and a size. The
//! engine keeps three promises:
//!
//! - a desk has at most one open session, whatever transitions of the session
//!   lifecycle follow one another ([`laws::law_exclusive_always`]);
//! - a request is stored only if its selection and its size fit the catalog
//!   entry of its dish ([`request::Request::create`]);
//! - what is stored is what is found again ([`laws::law_create_then_fetch`]).
//!
//! All state lives in a [`store::Store`], whose mathematical value is a
//! [`store::Tables`]: one sequence of rows per table. Every operation takes
//! the store by reference and says in its contract which outcome it returns
//! and what the tables are afterwards. An operation that changes the store
//! holds it exclusively, so no two of them ever interleave.
//!
//! The modules follow the components: [`desk`] is the desk registry,
//! [`session`] the session lifecycle, [`dish`] and [`species`] the menu,
//! [`request`] the request workflow, and [`validation`] the admission checks.
//! [`codec`] holds the few calls into other crates, whose contracts are
//! believed rather than proved.

use vstd::prelude::*;

pub mod callback_result;
pub mod codec;
pub mod desk;
pub mod dish;
pub mod laws;
pub mod request;
pub mod session;
pub mod species;
pub mod store;
pub mod utils;
pub mod validation;

verus! {

/// The text of the service greeting.
pub open spec fn greeting() -> Seq<char> {
    "demeter at your service"@
}

/// Returns the service greeting.
pub fn index() -> (text: String)
    ensures
        text@ == greeting(),
{
    "demeter at your service".to_owned()
}

} // verus!
