use vstd::prelude::*;

verus! {

/// Launch options: run the server, or a client, against `ip`.
#[derive(Clone, Debug)]
pub struct Settings {
    pub server: bool,
    pub ip: String,
}

} // verus!
