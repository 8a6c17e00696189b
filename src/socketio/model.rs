use vstd::prelude::*;

verus! {

/// A 20-byte account address.
#[derive(Clone, Copy, Debug, PartialEq, Eq)]
pub struct Address(pub [u8; 20]);

/// A 16-byte universally unique identifier.
#[derive(Clone, Copy, Debug, PartialEq, Eq)]
pub struct Uuid(pub [u8; 16]);

/// An unsigned 256-bit token amount, as its high and low 128-bit halves.
#[derive(Clone, Copy, Debug, PartialEq, Eq)]
pub struct Amount {
    pub hi: u128,
    pub lo: u128,
}

impl Amount {
    /// The number this amount stands for.
    pub open spec fn value(&self) -> nat {
        (self.hi as nat) * (u128::MAX as nat + 1) + (self.lo as nat)
    }

    /// Whether this amount is at least `other`.
    pub fn ge(&self, other: &Amount) -> (r: bool)
        ensures
            r == (self.value() >= other.value()),
    {
        let ghost (a, b, c, d) = (self.hi as int, self.lo as int, other.hi as int, other.lo as int);
        let ghost m: int = u128::MAX as int + 1;
        if self.hi != other.hi {
            proof {
                assert(0 <= b < m && 0 <= d < m);
                if a > c {
                    assert(a * m >= (c + 1) * m) by (nonlinear_arith)
                        requires
                            a > c,
                            m > 0,
                    ;
                } else {
                    assert(c * m >= (a + 1) * m) by (nonlinear_arith)
                        requires
                            c > a,
                            m > 0,
                    ;
                }
            }
            self.hi > other.hi
        } else {
            self.lo >= other.lo
        }
    }
}

/// The data-availability backends a payload can be published to.
#[derive(Clone, Copy, Debug, PartialEq, Eq)]
pub enum DaLayer {
    /// The namespace backend.
    Celestia,
    /// The blob-transaction backend.
    Eip4844,
}

/// The tag that identifies a backend in settlement calls.
pub open spec fn da_layer_tag(l: DaLayer) -> u8 {
    match l {
        DaLayer::Celestia => 0,
        DaLayer::Eip4844 => 1,
    }
}

impl From<DaLayer> for u8 {
    fn from(value: DaLayer) -> (r: u8)
        ensures
            r == da_layer_tag(value),
    {
        match value {
            DaLayer::Celestia => 0,
            DaLayer::Eip4844 => 1,
        }
    }
}

impl vstd::std_specs::convert::FromSpecImpl<DaLayer> for u8 {
    open spec fn obeys_from_spec() -> bool {
        true
    }

    open spec fn from_spec(v: DaLayer) -> u8 {
        da_layer_tag(v)
    }
}

impl DaLayer {
    /// The name of the backend on the event connection.
    pub fn name(&self) -> (r: &'static str)
        ensures
            r@ == match self {
                DaLayer::Celestia => "Celestia"@,
                DaLayer::Eip4844 => "4844"@,
            },
    {
        match self {
            DaLayer::Celestia => "Celestia",
            DaLayer::Eip4844 => "4844",
        }
    }
}

/// A data-availability job advertised by the coordinator.
#[derive(Debug)]
pub struct PostingIntent {
    pub task_id: Uuid,
    pub size: u64,
    pub client_address: Address,
    pub reward_amount: Amount,
    pub reward_token: Address,
    pub acceptable_da_layers: Vec<DaLayer>,
}

/// This operator's bid on an advertised job.
#[derive(Clone, Copy, Debug, PartialEq, Eq)]
pub struct PostingInterest {
    pub task_id: Uuid,
    pub operator_address: Address,
    pub da_layer: DaLayer,
}

/// The assignment of a job to this operator.
#[derive(Debug)]
pub struct TaskResponsibility {
    pub task_id: Uuid,
    /// Standard base64 text of the payload's canonical encoding.
    pub data: String,
    pub commitment: Vec<u8>,
    pub da_layer: DaLayer,
    /// Signature over the assignment, as hexadecimal text.
    pub signature: String,
    pub submission_time: Amount,
    pub client_address: Address,
    pub reward_token: Address,
    pub reward_amount: Amount,
}

/// A liveness probe from the coordinator.
#[derive(Clone, Copy, Debug, PartialEq, Eq)]
pub struct Ping {
    pub id: Uuid,
}

/// The answer to a liveness probe.
#[derive(Clone, Copy, Debug, PartialEq, Eq)]
pub struct Pong {
    pub id: Uuid,
    pub operator: Address,
}

} // verus!
