//! The transport seam and the [`Eleven`] device facade: a typed view over any
//! [`Transport`], and the in-memory [`MockTransport`] that stands in for a unit.

use vstd::prelude::*;
use vstd::slice::slice_to_vec;

use crate::error::{Error, Result};
use crate::search::{
    find_first, first_index, is_first, lemma_first_at, lemma_first_none, lemma_match_has_first,
};
use crate::value::{bytes_of, lemma_value_len, lemma_word_bound, word_of, RawValue, WORD_LIMIT};

verus! {

/// One exchange with a unit, with what it was handed and what came back.
pub enum TransportOp {
    /// A read of one address and the value bytes it returned, if any.
    Read { addr: Seq<u8>, result: Option<Seq<u8>> },
    /// A write of value bytes to one address, and whether it went through.
    Write { addr: Seq<u8>, value: Seq<u8>, ok: bool },
    /// A batch read and the `(address, value)` answers it returned, if any.
    Scan { addrs: Seq<Seq<u8>>, result: Option<Seq<CellView>> },
}

/// The addresses of a batch read.
pub open spec fn addr_views(addrs: Seq<Vec<u8>>) -> Seq<Seq<u8>> {
    addrs.map_values(|a: Vec<u8>| a@)
}

/// How parameter values reach a unit: read one address, write one address, or
/// read a batch of addresses at once. Every exchange is recorded in the
/// transport's transcript with what it was handed and what came back.
pub trait Transport {
    /// The exchanges so far, oldest first.
    spec fn transcript(&self) -> Seq<TransportOp>;

    /// Read the raw value at `addr`.
    fn read(&mut self, addr: &[u8]) -> (r: Result<RawValue>)
        ensures
            final(self).transcript() == old(self).transcript().push(
                TransportOp::Read {
                    addr: addr@,
                    result: match r {
                        Ok(v) => Some(v@),
                        Err(_) => None,
                    },
                },
            ),
    ;

    /// Write a raw value to `addr`.
    fn write(&mut self, addr: &[u8], value: &RawValue) -> (r: Result<()>)
        ensures
            final(self).transcript() == old(self).transcript().push(
                TransportOp::Write { addr: addr@, value: value@, ok: r is Ok },
            ),
    ;

    /// Read a batch of addresses; one `(address, value)` pair for each that
    /// answered.
    fn scan(&mut self, addrs: &[Vec<u8>]) -> (r: Result<Vec<(Vec<u8>, RawValue)>>)
        ensures
            final(self).transcript() == old(self).transcript().push(
                TransportOp::Scan {
                    addrs: addr_views(addrs@),
                    result: match r {
                        Ok(v) => Some(cell_views(v@)),
                        Err(_) => None,
                    },
                },
            ),
    ;
}

/// A typed handle to an Eleven Rack, generic over its [`Transport`]. Reads and
/// writes name a parameter by its raw address and exchange a decoded word or the
/// raw five-byte wire value.
#[derive(Debug)]
pub struct Eleven<T> {
    transport: T,
}

impl<T> Eleven<T> {
    /// The wrapped transport.
    pub closed spec fn transport_spec(&self) -> T {
        self.transport
    }
}

impl<T: Transport> Eleven<T> {
    /// The wrapped transport's exchanges so far.
    pub open spec fn transcript(&self) -> Seq<TransportOp> {
        self.transport_spec().transcript()
    }
}

/// The word a read returned: its value bytes decoded.
pub open spec fn read_word(op: TransportOp) -> Option<int> {
    match op {
        TransportOp::Read { result: Some(v), .. } => Some(word_of(v)),
        _ => None,
    }
}

impl<T: Transport> Eleven<T> {
    /// Wrap a transport.
    pub fn new(transport: T) -> (r: Self)
        ensures
            r.transport_spec() == transport,
    {
        Eleven { transport }
    }

    /// Read the parameter at `addr`, returning the decoded 35-bit word.
    pub fn read(&mut self, addr: &[u8]) -> (r: Result<u64>)
        ensures
            final(self).transcript().drop_last() == old(self).transcript(),
            final(self).transcript().len() == old(self).transcript().len() + 1,
            final(self).transcript().last() matches TransportOp::Read { addr: a, .. } && a == addr@,
            match r {
                Ok(w) => read_word(final(self).transcript().last()) == Some(w as int) && w
                    < WORD_LIMIT,
                Err(_) => read_word(final(self).transcript().last()) is None,
            },
    {
        match self.transport.read(addr) {
            Ok(v) => {
                proof {
                    lemma_value_len(v);
                    lemma_word_bound(v@);
                    assert(self.transcript() =~= old(self).transcript().push(self.transcript().last()));
                }
                Ok(v.decode())
            },
            Err(e) => {
                assert(self.transcript() =~= old(self).transcript().push(self.transcript().last()));
                Err(e)
            },
        }
    }

    /// Read the parameter at `addr`, returning the raw five-byte wire value.
    pub fn read_raw(&mut self, addr: &[u8]) -> (r: Result<RawValue>)
        ensures
            final(self).transcript() == old(self).transcript().push(
                TransportOp::Read {
                    addr: addr@,
                    result: match r {
                        Ok(v) => Some(v@),
                        Err(_) => None,
                    },
                },
            ),
    {
        self.transport.read(addr)
    }

    /// Write `word` to the parameter at `addr`.
    pub fn write(&mut self, addr: &[u8], word: u64) -> (r: Result<()>)
        ensures
            final(self).transcript() == old(self).transcript().push(
                TransportOp::Write { addr: addr@, value: bytes_of(word), ok: r is Ok },
            ),
    {
        let v = RawValue::encode(word);
        self.transport.write(addr, &v)
    }

    /// Write a raw five-byte wire value to the parameter at `addr`.
    pub fn write_raw(&mut self, addr: &[u8], value: &RawValue) -> (r: Result<()>)
        ensures
            final(self).transcript() == old(self).transcript().push(
                TransportOp::Write { addr: addr@, value: value@, ok: r is Ok },
            ),
    {
        self.transport.write(addr, value)
    }

    /// Read a batch of addresses, one `(address, value)` pair for each that
    /// answered (non-answering addresses are omitted).
    pub fn scan(&mut self, addrs: &[Vec<u8>]) -> (r: Result<Vec<(Vec<u8>, RawValue)>>)
        ensures
            final(self).transcript() == old(self).transcript().push(
                TransportOp::Scan {
                    addrs: addr_views(addrs@),
                    result: match r {
                        Ok(v) => Some(cell_views(v@)),
                        Err(_) => None,
                    },
                },
            ),
    {
        self.transport.scan(addrs)
    }

    /// Consume the facade and return the underlying transport.
    pub fn into_transport(self) -> (r: T)
        ensures
            r == self.transport_spec(),
    {
        self.transport
    }
}

/// One stored cell of the mock: an address and the value bytes held there.
pub type CellView = (Seq<u8>, Seq<u8>);

/// A cell whose address is `addr`.
pub open spec fn cell_at(addr: Seq<u8>) -> spec_fn(CellView) -> bool {
    |c: CellView| c.0 == addr
}

/// The value held at `addr`: the first cell with that address, if any.
pub open spec fn lookup(cells: Seq<CellView>, addr: Seq<u8>) -> Option<Seq<u8>> {
    match find_first(cells, cell_at(addr)) {
        Some(c) => Some(c.1),
        None => None,
    }
}

/// The cells after writing `value` to `addr`: the first cell with that address
/// takes the value, or a new cell is appended.
pub open spec fn stored(cells: Seq<CellView>, addr: Seq<u8>, value: Seq<u8>) -> Seq<CellView> {
    match first_index(cells, cell_at(addr)) {
        Some(i) => cells.update(i, (addr, value)),
        None => cells.push((addr, value)),
    }
}

/// The answers to a batch read: each address that holds a value, in request
/// order, with its value.
pub open spec fn scanned(cells: Seq<CellView>, addrs: Seq<Seq<u8>>) -> Seq<CellView>
    decreases addrs.len(),
{
    if addrs.len() == 0 {
        Seq::empty()
    } else {
        let a = addrs.last();
        let rest = scanned(cells, addrs.drop_last());
        match lookup(cells, a) {
            Some(v) => rest.push((a, v)),
            None => rest,
        }
    }
}

/// An in-memory transport: a parameter store keyed by address. Reading an
/// address that was never written gets no reply ([`Error::Timeout`]), as from
/// a unit that does not answer.
#[derive(Clone)]
pub struct MockTransport {
    cells: Vec<(Vec<u8>, RawValue)>,
    log: Ghost<Seq<TransportOp>>,
}

/// The views of the mock's cells.
pub open spec fn cell_views(cells: Seq<(Vec<u8>, RawValue)>) -> Seq<CellView> {
    cells.map_values(|c: (Vec<u8>, RawValue)| (c.0@, c.1@))
}

impl View for MockTransport {
    type V = Seq<CellView>;

    closed spec fn view(&self) -> Seq<CellView> {
        cell_views(self.cells@)
    }
}

/// Whether two byte strings are equal.
pub fn bytes_equal(a: &[u8], b: &[u8]) -> (r: bool)
    ensures
        r == (a@ == b@),
{
    if a.len() != b.len() {
        return false;
    }
    let mut i: usize = 0;
    while i < a.len()
        invariant
            i <= a@.len(),
            a@.len() == b@.len(),
            forall|j: int| 0 <= j < i ==> a@[j] == b@[j],
        decreases a@.len() - i,
    {
        if a[i] != b[i] {
            return false;
        }
        i += 1;
    }
    assert(a@ =~= b@);
    true
}

impl MockTransport {
    /// An empty store.
    pub fn new() -> (r: MockTransport)
        ensures
            r@ == Seq::<CellView>::empty(),
            r.transcript() == Seq::<TransportOp>::empty(),
    {
        let r = MockTransport { cells: Vec::new(), log: Ghost(Seq::empty()) };
        assert(r@ =~= Seq::<CellView>::empty());
        r
    }

    /// The position of the first cell at `addr`.
    fn position(&self, addr: &[u8]) -> (r: Option<usize>)
        ensures
            match r {
                Some(i) => first_index(self@, cell_at(addr@)) == Some(i as int) && i
                    < self.cells@.len(),
                None => first_index(self@, cell_at(addr@)) is None,
            },
    {
        let ghost all = self@;
        let ghost pr = cell_at(addr@);
        let mut i: usize = 0;
        while i < self.cells.len()
            invariant
                i <= self.cells@.len(),
                all == self@,
                all.len() == self.cells@.len(),
                pr == cell_at(addr@),
                forall|j: int| 0 <= j < i ==> !pr(#[trigger] all[j]),
            decreases self.cells@.len() - i,
        {
            assert(all[i as int] == (self.cells@[i as int].0@, self.cells@[i as int].1@));
            if bytes_equal(self.cells[i].0.as_slice(), addr) {
                proof {
                    lemma_first_at(all, pr, i as int);
                }
                return Some(i);
            }
            i += 1;
        }
        proof {
            lemma_first_none(all, pr);
            if exists|k: int| is_first(all, pr, k) {
                let k = choose|k: int| is_first(all, pr, k);
                assert(pr(all[k]));
            }
        }
        None
    }
}

impl Default for MockTransport {
    fn default() -> (r: MockTransport)
        ensures
            r@ == Seq::<CellView>::empty(),
            r.transcript() == Seq::<TransportOp>::empty(),
    {
        MockTransport::new()
    }
}

impl Transport for MockTransport {
    closed spec fn transcript(&self) -> Seq<TransportOp> {
        self.log@
    }

    /// The value held at `addr`, or no reply.
    fn read(&mut self, addr: &[u8]) -> (r: Result<RawValue>)
        ensures
            final(self)@ == old(self)@,
            match r {
                Ok(v) => lookup(old(self)@, addr@) == Some(v@),
                Err(e) => lookup(old(self)@, addr@) is None && e is Timeout,
            },
    {
        match self.position(addr) {
            Some(i) => {
                proof {
                    lemma_first_at(self@, cell_at(addr@), i as int);
                }
                let v = self.cells[i].1;
                self.log = Ghost(self.log@.push(TransportOp::Read { addr: addr@, result: Some(v@) }));
                Ok(v)
            },
            None => {
                self.log = Ghost(self.log@.push(TransportOp::Read { addr: addr@, result: None }));
                Err(Error::Timeout)
            },
        }
    }

    /// Store the value at `addr`.
    fn write(&mut self, addr: &[u8], value: &RawValue) -> (r: Result<()>)
        ensures
            r is Ok,
            final(self)@ == stored(old(self)@, addr@, value@),
    {
        match self.position(addr) {
            Some(i) => {
                self.cells.set(i, (slice_to_vec(addr), *value));
                assert(self@ =~= stored(old(self)@, addr@, value@));
            },
            None => {
                self.cells.push((slice_to_vec(addr), *value));
                assert(self@ =~= stored(old(self)@, addr@, value@));
            },
        }
        self.log = Ghost(self.log@.push(TransportOp::Write { addr: addr@, value: value@, ok: true }));
        Ok(())
    }

    /// The addresses that hold a value, in request order, with their values.
    fn scan(&mut self, addrs: &[Vec<u8>]) -> (r: Result<Vec<(Vec<u8>, RawValue)>>)
        ensures
            final(self)@ == old(self)@,
            match r {
                Ok(v) => cell_views(v@) == scanned(old(self)@, addrs@.map_values(
                    |a: Vec<u8>| a@,
                )),
                Err(_) => false,
            },
    {
        let ghost wanted = addrs@.map_values(|a: Vec<u8>| a@);
        let mut out: Vec<(Vec<u8>, RawValue)> = Vec::new();
        let mut i: usize = 0;
        while i < addrs.len()
            invariant
                i <= addrs@.len(),
                wanted == addrs@.map_values(|a: Vec<u8>| a@),
                cell_views(out@) =~= scanned(self@, wanted.take(i as int)),
            decreases addrs@.len() - i,
        {
            let a = addrs[i].as_slice();
            assert(wanted.take(i + 1).drop_last() =~= wanted.take(i as int));
            assert(wanted.take(i + 1).last() == a@);
            match self.position(a) {
                Some(k) => {
                    proof {
                        lemma_first_at(self@, cell_at(a@), k as int);
                    }
                    let ghost prev = out@;
                    out.push((slice_to_vec(a), self.cells[k].1));
                    assert(cell_views(out@) =~= cell_views(prev).push((a@, self@[k as int].1)));
                },
                None => {},
            }
            i += 1;
        }
        assert(wanted.take(addrs@.len() as int) =~= wanted);
        self.log = Ghost(self.log@.push(
            TransportOp::Scan { addrs: addr_views(addrs@), result: Some(cell_views(out@)) },
        ));
        Ok(out)
    }
}

/// Reading an address right after writing it gives back the written value.
pub proof fn lemma_read_after_write(cells: Seq<CellView>, addr: Seq<u8>, value: Seq<u8>)
    ensures
        lookup(stored(cells, addr, value), addr) == Some(value),
{
    let pr = cell_at(addr);
    match first_index(cells, pr) {
        Some(i) => {
            assert(is_first(cells, pr, i));
            let s = cells.update(i, (addr, value));
            assert(is_first(s, pr, i)) by {
                assert forall|j: int| 0 <= j < i implies !pr(#[trigger] s[j]) by {
                    assert(s[j] == cells[j]);
                }
            }
            lemma_first_at(s, pr, i);
        },
        None => {
            let s = cells.push((addr, value));
            assert(is_first(s, pr, cells.len() as int)) by {
                assert forall|j: int| 0 <= j < cells.len() implies !pr(#[trigger] s[j]) by {
                    assert(s[j] == cells[j]);
                    if pr(cells[j]) {
                        lemma_match_has_first(cells, pr, j);
                    }
                }
            }
            lemma_first_at(s, pr, cells.len() as int);
        },
    }
}

/// Writing one address leaves what every other address reads unchanged.
pub proof fn lemma_write_leaves_others(
    cells: Seq<CellView>,
    addr: Seq<u8>,
    value: Seq<u8>,
    other: Seq<u8>,
)
    requires
        other != addr,
    ensures
        lookup(stored(cells, addr, value), other) == lookup(cells, other),
{
    let pa = cell_at(addr);
    let pb = cell_at(other);
    let s = stored(cells, addr, value);
    assert(!pb((addr, value)));
    assert forall|j: int| 0 <= j < s.len() && j < cells.len() && s[j] != cells[j] implies !pb(
        #[trigger] s[j],
    ) && !pb(cells[j]) by {
        let i = first_index(cells, pa)->0;
        assert(is_first(cells, pa, i));
        assert(j == i);
    }
    match first_index(cells, pb) {
        Some(k) => {
            assert(is_first(cells, pb, k));
            if s[k] != cells[k] {
                assert(!pb(cells[k]));
            }
            assert(is_first(s, pb, k)) by {
                assert forall|j: int| 0 <= j < k implies !pb(#[trigger] s[j]) by {
                    if s[j] != cells[j] {
                    } else {
                        assert(!pb(cells[j]));
                    }
                }
            }
            lemma_first_at(s, pb, k);
        },
        None => {
            assert forall|j: int| 0 <= j < s.len() implies !pb(#[trigger] s[j]) by {
                if j < cells.len() && s[j] == cells[j] {
                    if pb(cells[j]) {
                        lemma_match_has_first(cells, pb, j);
                    }
                }
            }
            lemma_first_none(s, pb);
        },
    }
}

} // verus!
