//! The values exchanged by the benchmark's RPC service, and the services
//! that answer them.
use std::sync::Arc;
use vstd::prelude::*;

verus! {

/// A value sent to, or answered by, the benchmark service. `Empty` carries
/// no value.
#[derive(Debug)]
pub enum DataType {
    Empty,
    Number(i64),
    Text(Arc<String>),
}

/// The error of a service that cannot fail: it has no values.
pub type Never = std::convert::Infallible;

/// `d` is a text value whose characters are `s`.
pub open spec fn is_text(d: DataType, s: Seq<char>) -> bool {
    d matches DataType::Text(t) && t@ == s
}

/// The service whose answer is built from the request.
#[derive(Clone)]
pub struct HelloServer;

impl HelloServer {
    /// Answers one row holding the request followed by the text `foobar`.
    pub fn inner(&self, i: DataType) -> (r: Result<Vec<Vec<DataType>>, Never>)
        ensures
            r.is_ok(),
            r.unwrap()@.len() == 1,
            r.unwrap()@[0]@.len() == 2,
            r.unwrap()@[0]@[0] == i,
            is_text(r.unwrap()@[0]@[1], "foobar"@),
    {
        let text = DataType::Text(Arc::new("foobar".to_owned()));
        let row = vec![i, text];
        Ok(vec![row])
    }

    /// The service call over typed values: the answer of [`HelloServer::inner`].
    pub fn test(&self, i: DataType) -> (r: Result<Vec<Vec<DataType>>, Never>)
        ensures
            r.is_ok(),
            r.unwrap()@.len() == 1,
            r.unwrap()@[0]@.len() == 2,
            r.unwrap()@[0]@[0] == i,
            is_text(r.unwrap()@[0]@[1], "foobar"@),
    {
        self.inner(i)
    }
}

/// The service that answers every request with the same bytes, encoded
/// once in advance.
#[derive(Clone)]
pub struct Preserialized {
    pub bytes: Vec<u8>,
}

impl Preserialized {
    /// Answers the stored bytes, whatever the request.
    pub fn test(&self, i: Vec<u8>) -> (r: Result<Vec<u8>, Never>)
        ensures
            r.is_ok(),
            r.unwrap()@ == self.bytes@,
    {
        let out = self.bytes.clone();
        assert(out@ =~= self.bytes@);
        Ok(out)
    }
}

} // verus!
