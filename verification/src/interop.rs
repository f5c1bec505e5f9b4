//! The service of the interoperability test server: one page.

use vstd::prelude::*;

verus! {

/// A response that is there at once: a status and a body of plain text.
#[derive(Clone, Debug, PartialEq, Eq)]
pub struct SimpleHttpMessage {
    pub status: u16,
    pub body: Vec<u8>,
}

/// The bytes of `/200`.
pub open spec fn path_200() -> Seq<u8> {
    seq![0x2fu8, 0x32, 0x30, 0x30]
}

/// The bytes of `200 200 200`.
pub open spec fn body_200() -> Seq<u8> {
    seq![0x32u8, 0x30, 0x30, 0x20, 0x32, 0x30, 0x30, 0x20, 0x32, 0x30, 0x30]
}

/// The bytes of `not found`.
pub open spec fn body_404() -> Seq<u8> {
    seq![0x6eu8, 0x6f, 0x74, 0x20, 0x66, 0x6f, 0x75, 0x6e, 0x64]
}

impl SimpleHttpMessage {
    /// Status 200 with the given text.
    pub fn found_200_plain_text(body: &[u8]) -> (m: SimpleHttpMessage)
        ensures
            m.status == 200,
            m.body@ == body@,
    {
        let mut v: Vec<u8> = Vec::new();
        v.extend_from_slice(body);
        SimpleHttpMessage { status: 200, body: v }
    }

    /// Status 404 with the given text.
    pub fn not_found_404(body: &[u8]) -> (m: SimpleHttpMessage)
        ensures
            m.status == 404,
            m.body@ == body@,
    {
        let mut v: Vec<u8> = Vec::new();
        v.extend_from_slice(body);
        SimpleHttpMessage { status: 404, body: v }
    }
}

/// The service of the test server.
pub struct ServiceImpl {}

impl ServiceImpl {
    /// Answers a request by its path: `/200` gets status 200 and the text
    /// `200 200 200`, every other path status 404 and the text
    /// `not found`.
    pub fn start_request(&self, path: &[u8]) -> (m: SimpleHttpMessage)
        ensures
            path@ == path_200() ==> m.status == 200 && m.body@ == body_200(),
            path@ != path_200() ==> m.status == 404 && m.body@ == body_404(),
    {
        let is_200: bool = path.len() == 4 && path[0] == 0x2f && path[1] == 0x32 && path[2]
            == 0x30 && path[3] == 0x30;
        if is_200 {
            assert(path@ =~= path_200());
            let body: [u8; 11] = [0x32, 0x30, 0x30, 0x20, 0x32, 0x30, 0x30, 0x20, 0x32, 0x30, 0x30];
            assert(body@ =~= body_200());
            SimpleHttpMessage::found_200_plain_text(body.as_slice())
        } else {
            let body: [u8; 9] = [0x6e, 0x6f, 0x74, 0x20, 0x66, 0x6f, 0x75, 0x6e, 0x64];
            assert(body@ =~= body_404());
            SimpleHttpMessage::not_found_404(body.as_slice())
        }
    }
}

} // verus!
