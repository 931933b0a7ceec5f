use vstd::prelude::*;

verus! {

/// Protocol version of the mining messages.
pub const MINER_VERSION: u64 = 1;

/// The topics on which the mining driver talks to the node and to a kernel.
#[derive(Clone, Copy, Debug, PartialEq, Eq, Structural)]
pub enum MiningWire {
    Mined,
    Candidate,
    SetPubKey,
    Enable,
}

/// The topic tag of a wire, as text.
pub open spec fn verb_spec(w: MiningWire) -> Seq<char> {
    match w {
        MiningWire::Mined => "mined"@,
        MiningWire::SetPubKey => "setpubkey"@,
        MiningWire::Candidate => "candidate"@,
        MiningWire::Enable => "enable"@,
    }
}

/// Addressing of one request: source namespace, protocol version and topic tags.
#[derive(Clone, Debug)]
pub struct WireRepr {
    pub source: String,
    pub version: u64,
    pub tags: Vec<String>,
}

impl MiningWire {
    /// The topic tag of this wire.
    pub fn verb(&self) -> (r: &'static str)
        ensures
            r@ == verb_spec(*self),
    {
        match self {
            MiningWire::Mined => "mined",
            MiningWire::SetPubKey => "setpubkey",
            MiningWire::Candidate => "candidate",
            MiningWire::Enable => "enable",
        }
    }

    /// The full address of this wire: namespace `miner`, version 1, and the
    /// topic tag as the single tag.
    pub fn to_wire(&self) -> (r: WireRepr)
        ensures
            r.source@ == "miner"@,
            r.version == 1,
            r.tags@.len() == 1,
            r.tags@[0]@ == verb_spec(*self),
    {
        let tags: Vec<String> = vec![self.verb().to_string()];
        WireRepr { source: "miner".to_string(), version: MINER_VERSION, tags }
    }
}

} // verus!
