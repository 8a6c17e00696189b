use vstd::prelude::*;

verus! {

/// Health of the node as the status endpoint reports it.
#[derive(Clone, Copy, Debug, PartialEq, Eq)]
pub enum Status {
    Pass,
    Warn,
    Fail,
}

/// The status endpoint's answer.
#[derive(Debug)]
pub struct HealthCheck {
    status: Status,
    description: Option<String>,
}

impl HealthCheck {
    pub closed spec fn spec_status(&self) -> Status {
        self.status
    }

    pub closed spec fn spec_description(&self) -> Option<Seq<char>> {
        match &self.description {
            Some(d) => Some(d@),
            None => None,
        }
    }

    pub fn status(&self) -> (r: Status)
        ensures
            r == self.spec_status(),
    {
        self.status
    }

    pub fn description(&self) -> (r: Option<&String>)
        ensures
            match r {
                Some(d) => self.spec_description() == Some(d@),
                None => self.spec_description() is None,
            },
    {
        self.description.as_ref()
    }

    /// The HTTP status code of the answer: 200 unless the node failed.
    pub fn status_code(&self) -> (r: u16)
        ensures
            r == (if self.spec_status() == Status::Fail {
                500u16
            } else {
                200u16
            }),
    {
        match self.status {
            Status::Pass | Status::Warn => 200,
            Status::Fail => 500,
        }
    }
}

/// The health of a node whose event connection is `connected` or not.
pub fn health_check(connected: bool) -> (r: HealthCheck)
    ensures
        connected ==> r.spec_status() == Status::Pass && r.spec_description() is None,
        !connected ==> r.spec_status() == Status::Fail && r.spec_description() == Some(
            "Socket IO not connected"@,
        ),
{
    if connected {
        HealthCheck { status: Status::Pass, description: None }
    } else {
        let d = "Socket IO not connected".to_owned();
        proof {
            reveal_strlit("Socket IO not connected");
        }
        HealthCheck { status: Status::Fail, description: Some(d) }
    }
}

} // verus!
