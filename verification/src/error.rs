use vstd::prelude::*;

verus! {

/// Error taxonomy of the library. Each variant carries a human-readable
/// diagnostic.
#[derive(Debug, Clone)]
pub enum StmError {
    Ssh(String),
    Connection(String),
    Tunnel(String),
    Config(String),
    Io(String),
    Parse(String),
}

impl StmError {
    /// The diagnostic carried by this error.
    pub fn detail(&self) -> (r: &str)
        ensures
            r@ == (match self {
                StmError::Ssh(m) => m@,
                StmError::Connection(m) => m@,
                StmError::Tunnel(m) => m@,
                StmError::Config(m) => m@,
                StmError::Io(m) => m@,
                StmError::Parse(m) => m@,
            }),
    {
        match self {
            StmError::Ssh(m) => m.as_str(),
            StmError::Connection(m) => m.as_str(),
            StmError::Tunnel(m) => m.as_str(),
            StmError::Config(m) => m.as_str(),
            StmError::Io(m) => m.as_str(),
            StmError::Parse(m) => m.as_str(),
        }
    }
}

} // verus!
