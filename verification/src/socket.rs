//! The transport capability the resolver sends and receives through, and a
//! scripted implementation of it that serves preconfigured responses keyed by
//! (request bytes, destination address) — the deterministic transport the
//! tests run against. A real UDP transport lives outside the library.

use crate::errors::DnsError;
use vstd::prelude::*;
use vstd::string::{StrSliceExecFns, StringSliceAdditionalSpecFns};
use vstd::utf8::encode_utf8_decode_utf8;

verus! {

/// The three-operation transport capability: bind once, then send datagrams
/// and wait for replies. The resolver never opens sockets itself; it only
/// drives one of these, which may be backed by a real socket or by scripted
/// data.
pub trait Socket: Sized {
    /// Bind a new transport to the given local address.
    fn bind(addr: &str) -> Result<Self, DnsError>;

    /// Send the buffer to the given "ip:port" address; on success, how many
    /// bytes went out.
    fn send(&mut self, buf: &[u8], addr: &str) -> Result<usize, DnsError>;

    /// Wait for data and write it into `buf`; on success, how many bytes
    /// came in.
    fn recv_from(&self, buf: &mut Vec<u8>) -> Result<usize, DnsError>;
}

/// Two byte slices hold the same bytes.
pub(crate) fn bytes_eq(a: &[u8], b: &[u8]) -> (r: bool)
    ensures
        r == (a@ == b@),
{
    if a.len() != b.len() {
        proof {
            assert(a@.len() != b@.len());
        }
        return false;
    }
    let n = a.len();
    let mut i: usize = 0;
    while i < n
        invariant
            n == a@.len() == b@.len(),
            i <= n,
            forall|j: int| 0 <= j < i ==> a@[j] == b@[j],
        decreases n - i,
    {
        if a[i] != b[i] {
            return false;
        }
        i = i + 1;
    }
    proof {
        assert(a@ =~= b@);
    }
    true
}

/// Two string slices hold the same text.
pub(crate) fn str_eq(a: &str, b: &str) -> (r: bool)
    ensures
        r == (a@ == b@),
{
    let r = bytes_eq(a.as_bytes(), b.as_bytes());
    proof {
        if a.spec_bytes() == b.spec_bytes() {
            encode_utf8_decode_utf8(a@);
            encode_utf8_decode_utf8(b@);
        }
    }
    r
}

/// Key used to match send calls with the right preconfigured response.
pub struct MockKey {
    pub query_bytes: Vec<u8>,
    pub server_ip: String,
}

/// Data with which to configure `MockSocket`.
pub struct MockData {
    pub data: Vec<u8>,
}

/// A transport that serves preconfigured responses instead of touching the
/// network. `send` looks the request up and arms the matching response;
/// `recv_from` serves the armed response.
pub struct MockSocket {
    /// All preconfigured responses, in registration order; on duplicate keys
    /// the latest registration wins.
    pub response_data: Vec<(MockKey, MockData)>,
    /// Index into `response_data` of the next response to serve.
    pub next_response: Option<usize>,
}

/// The index of the latest entry whose key is (`q`, `a`), if any.
pub open spec fn spec_mock_lookup(
    entries: Seq<(MockKey, MockData)>,
    q: Seq<u8>,
    a: Seq<char>,
) -> Option<int>
    decreases entries.len(),
{
    if entries.len() == 0 {
        None
    } else if entries.last().0.query_bytes@ == q && entries.last().0.server_ip@ == a {
        Some(entries.len() - 1)
    } else {
        spec_mock_lookup(entries.drop_last(), q, a)
    }
}

impl MockSocket {
    /// Preconfigure the mock socket with its responses, replacing any
    /// earlier configuration.
    pub fn register_response_data(&mut self, data: Vec<(MockKey, MockData)>)
        ensures
            final(self).response_data == data,
            final(self).next_response == old(self).next_response,
    {
        self.response_data = data;
    }
}

impl Default for MockSocket {
    /// A mock socket with no responses configured.
    fn default() -> (s: Self)
        ensures
            s.response_data@ =~= Seq::<(MockKey, MockData)>::empty(),
            s.next_response is None,
    {
        MockSocket { response_data: Vec::new(), next_response: None }
    }
}

impl Socket for MockSocket {
    /// A fresh, unconfigured mock socket; the address is ignored.
    fn bind(addr: &str) -> (r: Result<Self, DnsError>)
        ensures
            r matches Ok(s) ==> s.response_data@.len() == 0 && s.next_response is None,
            r is Ok,
    {
        Ok(MockSocket::default())
    }

    /// Look the request up among the preconfigured responses: on a hit, arm
    /// the matching response and report the whole buffer as sent; on a miss,
    /// fail and change nothing.
    fn send(&mut self, buf: &[u8], addr: &str) -> (r: Result<usize, DnsError>)
        ensures
            final(self).response_data == old(self).response_data,
            match spec_mock_lookup(old(self).response_data@, buf@, addr@) {
                None => r == Err::<usize, DnsError>(DnsError::SocketSend) && *final(self)
                    == *old(self),
                Some(i) => {
                    &&& r matches Ok(n) && n == buf@.len()
                    &&& final(self).next_response matches Some(j) && j as int == i
                },
            },
    {
        let mut found: Option<usize> = None;
        let mut i: usize = 0;
        let ghost entries = self.response_data@;
        while i < self.response_data.len()
            invariant
                i <= entries.len(),
                entries == self.response_data@,
                match spec_mock_lookup(entries.take(i as int), buf@, addr@) {
                    None => found is None,
                    Some(k) => found matches Some(f) && f as int == k && k < i,
                },
            decreases entries.len() - i,
        {
            let ghost pre = entries.take(i as int);
            let entry = &self.response_data[i];
            if bytes_eq(entry.0.query_bytes.as_slice(), buf) && str_eq(
                entry.0.server_ip.as_str(),
                addr,
            ) {
                found = Some(i);
            }
            proof {
                let cur = entries.take(i + 1);
                assert(cur.drop_last() =~= pre);
                assert(cur.last() == entries[i as int]);
            }
            i = i + 1;
        }
        proof {
            assert(entries.take(entries.len() as int) =~= entries);
        }
        match found {
            None => Err(DnsError::SocketSend),
            Some(idx) => {
                self.next_response = Some(idx);
                Ok(buf.len())
            },
        }
    }

    /// Serve the armed response: copy it into `buf` as far as it fits, and
    /// leave the rest of `buf` as it was. Fails when no response is armed.
    fn recv_from(&self, buf: &mut Vec<u8>) -> (r: Result<usize, DnsError>)
        ensures
            final(buf)@.len() == old(buf)@.len(),
            match self.next_response {
                None => r == Err::<usize, DnsError>(DnsError::SocketRead) && final(buf)@ == old(
                    buf,
                )@,
                Some(i) => {
                    if i < self.response_data@.len() {
                        let served = self.response_data@[i as int].1.data@;
                        &&& r matches Ok(n) && n == 0
                        &&& forall|k: int|
                            0 <= k < final(buf)@.len() ==> final(buf)@[k] == (if k < served.len() {
                                served[k]
                            } else {
                                old(buf)@[k]
                            })
                    } else {
                        r == Err::<usize, DnsError>(DnsError::SocketRead) && final(buf)@ == old(
                            buf,
                        )@
                    }
                },
            },
    {
        let idx = match self.next_response {
            None => {
                return Err(DnsError::SocketRead);
            },
            Some(i) => i,
        };
        if idx >= self.response_data.len() {
            return Err(DnsError::SocketRead);
        }
        let n = if self.response_data[idx].1.data.len() < buf.len() {
            self.response_data[idx].1.data.len()
        } else {
            buf.len()
        };
        let mut k: usize = 0;
        while k < n
            invariant
                k <= n,
                idx < self.response_data@.len(),
                n <= buf@.len(),
                n <= self.response_data@[idx as int].1.data@.len(),
                buf@.len() == old(buf)@.len(),
                forall|j: int|
                    0 <= j < k ==> buf@[j] == self.response_data@[idx as int].1.data@[j],
                forall|j: int| k <= j < buf@.len() ==> buf@[j] == old(buf)@[j],
                n == vstd::math::min(old(buf)@.len() as int, self.response_data@[
                    idx as int
                ].1.data@.len() as int),
            decreases n - k,
        {
            let byte = self.response_data[idx].1.data[k];
            buf.set(k, byte);
            k = k + 1;
        }
        Ok(0)
    }
}

} // verus!
