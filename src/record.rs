use crate::error::Error;
use vstd::prelude::*;

verus! {

/// Separates the `name=value` pieces of a record line.
pub const SPACE: u8 = 32;

/// Separates a name from its value.
pub const EQUALS: u8 = 61;

/// A field's name and its value, as bytes.
pub type EntryBytes = (Seq<u8>, Seq<u8>);

/// Where a left-to-right scan of a line stands: the entries of the pieces
/// already finished, the name and value read so far in the current piece, how
/// many `=` it has held (counted up to two), and whether a finished piece
/// lacked `=`.
pub type ScanState = (Seq<EntryBytes>, Seq<u8>, Seq<u8>, nat, bool);

/// The scan state after reading byte `c` in state `st`.
///
/// A piece's name is what precedes its first `=`, its value what lies between
/// the first `=` and the second one (or the end of the piece).
pub open spec fn scan_step(st: ScanState, c: u8) -> ScanState {
    if c == SPACE {
        (
            if st.3 == 0 { st.0 } else { st.0.push((st.1, st.2)) },
            Seq::empty(),
            Seq::empty(),
            0,
            st.4 || st.3 == 0,
        )
    } else if c == EQUALS {
        (st.0, st.1, st.2, if st.3 < 2 { st.3 + 1 } else { 2 }, st.4)
    } else if st.3 == 0 {
        (st.0, st.1.push(c), st.2, st.3, st.4)
    } else if st.3 == 1 {
        (st.0, st.1, st.2.push(c), st.3, st.4)
    } else {
        st
    }
}

/// The scan state after reading all of `s`.
pub open spec fn scan(s: Seq<u8>) -> ScanState
    decreases s.len(),
{
    if s.len() == 0 {
        (Seq::empty(), Seq::empty(), Seq::empty(), 0, false)
    } else {
        scan_step(scan(s.drop_last()), s.last())
    }
}

/// The entries of a line, one per space-separated piece in order, or `None`
/// where some piece (an empty one too) has no `=`.
pub open spec fn line_entries(s: Seq<u8>) -> Option<Seq<EntryBytes>> {
    let end = scan_step(scan(s), SPACE);
    if end.4 {
        None
    } else {
        Some(end.0)
    }
}

/// The value of the last entry named `name`: a later piece overrides an
/// earlier one.
pub open spec fn lookup(es: Seq<EntryBytes>, name: Seq<u8>) -> Option<Seq<u8>>
    decreases es.len(),
{
    if es.len() == 0 {
        None
    } else if es.last().0 == name {
        Some(es.last().1)
    } else {
        lookup(es.drop_last(), name)
    }
}

pub open spec fn tx_hash_name() -> Seq<u8> {
    seq![84u8, 120, 72, 97, 115, 104]
}

pub open spec fn gas_name() -> Seq<u8> {
    seq![71u8, 97, 115]
}

pub open spec fn fee_per_gas_name() -> Seq<u8> {
    seq![70u8, 101, 101, 80, 101, 114, 71, 97, 115]
}

pub open spec fn signature_name() -> Seq<u8> {
    seq![83u8, 105, 103, 110, 97, 116, 117, 114, 101]
}

pub open spec fn opt_bytes(o: Option<Vec<u8>>) -> Option<Seq<u8>> {
    match o {
        Some(v) => Some(v@),
        None => None,
    }
}

/// The raw values of the fields of a transaction record, where present.
pub struct Fields {
    pub tx_hash: Option<Vec<u8>>,
    pub gas: Option<Vec<u8>>,
    pub fee_per_gas: Option<Vec<u8>>,
    pub signature: Option<Vec<u8>>,
}

struct Scanner {
    entries: Vec<(Vec<u8>, Vec<u8>)>,
    name: Vec<u8>,
    value: Vec<u8>,
    equals: u8,
    bad: bool,
}

spec fn entries_bytes(es: Seq<(Vec<u8>, Vec<u8>)>) -> Seq<EntryBytes> {
    es.map_values(|e: (Vec<u8>, Vec<u8>)| (e.0@, e.1@))
}

impl Scanner {
    spec fn state(&self) -> ScanState {
        (entries_bytes(self.entries@), self.name@, self.value@, self.equals as nat, self.bad)
    }

    fn step(&mut self, c: u8)
        requires
            old(self).equals <= 2,
        ensures
            final(self).equals <= 2,
            final(self).state() == scan_step(old(self).state(), c),
    {
        if c == SPACE {
            if self.equals == 0 {
                self.bad = true;
            } else {
                let mut name: Vec<u8> = Vec::new();
                let mut value: Vec<u8> = Vec::new();
                std::mem::swap(&mut name, &mut self.name);
                std::mem::swap(&mut value, &mut self.value);
                self.entries.push((name, value));
            }
            self.name = Vec::new();
            self.value = Vec::new();
            self.equals = 0;
            proof {
                assert(entries_bytes(self.entries@) =~= scan_step(old(self).state(), c).0);
            }
        } else if c == EQUALS {
            if self.equals < 2 {
                self.equals = self.equals + 1;
            }
        } else if self.equals == 0 {
            self.name.push(c);
        } else if self.equals == 1 {
            self.value.push(c);
        }
    }
}

/// Splits a record line into its entries, or `None` where a piece lacks `=`.
fn split_entries(line: &[u8]) -> (r: Option<Vec<(Vec<u8>, Vec<u8>)>>)
    ensures
        match r {
            Some(es) => line_entries(line@) == Some(entries_bytes(es@)),
            None => line_entries(line@) is None,
        },
{
    let mut sc = Scanner {
        entries: Vec::new(),
        name: Vec::new(),
        value: Vec::new(),
        equals: 0,
        bad: false,
    };
    proof {
        assert(entries_bytes(sc.entries@) =~= Seq::empty());
        assert(line@.take(0) =~= Seq::empty());
    }
    let mut i: usize = 0;
    while i < line.len()
        invariant
            i <= line@.len(),
            sc.equals <= 2,
            sc.state() == scan(line@.take(i as int)),
        decreases line@.len() - i,
    {
        sc.step(line[i]);
        proof {
            assert(line@.take(i + 1).drop_last() =~= line@.take(i as int));
        }
        i = i + 1;
    }
    proof {
        assert(line@.take(i as int) =~= line@);
    }
    sc.step(SPACE);
    if sc.bad {
        None
    } else {
        Some(sc.entries)
    }
}

/// Whether `a` and `b` hold the same bytes.
fn same_bytes(a: &Vec<u8>, b: &Vec<u8>) -> (r: bool)
    ensures
        r == (a@ == b@),
{
    if a.len() != b.len() {
        return false;
    }
    let mut i: usize = 0;
    while i < a.len()
        invariant
            i <= a@.len(),
            a@.len() == b@.len(),
            forall|j: int| 0 <= j < i ==> a@[j] == b@[j],
        decreases a@.len() - i,
    {
        if a[i] != b[i] {
            return false;
        }
        i = i + 1;
    }
    proof {
        assert(a@ =~= b@);
    }
    true
}

/// The value of the last entry named `name`.
fn find_value(es: &Vec<(Vec<u8>, Vec<u8>)>, name: &Vec<u8>) -> (r: Option<Vec<u8>>)
    ensures
        opt_bytes(r) == lookup(entries_bytes(es@), name@),
{
    let ghost all = entries_bytes(es@);
    let mut i: usize = es.len();
    proof {
        assert(all.take(i as int) =~= all);
    }
    while i > 0
        invariant
            i <= es@.len(),
            all == entries_bytes(es@),
            lookup(all, name@) == lookup(all.take(i as int), name@),
        decreases i,
    {
        proof {
            assert(all.take(i as int).drop_last() =~= all.take(i - 1));
        }
        i = i - 1;
        if same_bytes(&es[i].0, name) {
            let v = es[i].1.clone();
            proof {
                assert(v@ =~= es@[i as int].1@);
            }
            return Some(v);
        }
    }
    proof {
        assert(all.take(0) =~= Seq::empty());
    }
    None
}

/// Reads the fields of a transaction record line `Name=Value Name=Value ...`.
///
/// Fails where a space-separated piece, an empty one too, has no `=`. Otherwise
/// each field holds the value of the last piece with its name, if any.
pub fn record_fields(line: &[u8]) -> (r: Result<Fields, Error>)
    ensures
        match line_entries(line@) {
            None => r == Err::<Fields, Error>(Error::InvalidTransactionFormat),
            Some(es) => r matches Ok(f) && opt_bytes(f.tx_hash) == lookup(es, tx_hash_name())
                && opt_bytes(f.gas) == lookup(es, gas_name()) && opt_bytes(f.fee_per_gas)
                == lookup(es, fee_per_gas_name()) && opt_bytes(f.signature) == lookup(
                es,
                signature_name(),
            ),
        },
{
    match split_entries(line) {
        None => Err(Error::InvalidTransactionFormat),
        Some(es) => {
            let tx_hash_key: Vec<u8> = vec![84u8, 120, 72, 97, 115, 104];
            let gas_key: Vec<u8> = vec![71u8, 97, 115];
            let fee_per_gas_key: Vec<u8> = vec![70u8, 101, 101, 80, 101, 114, 71, 97, 115];
            let signature_key: Vec<u8> = vec![83u8, 105, 103, 110, 97, 116, 117, 114, 101];
            proof {
                assert(tx_hash_key@ =~= tx_hash_name());
                assert(gas_key@ =~= gas_name());
                assert(fee_per_gas_key@ =~= fee_per_gas_name());
                assert(signature_key@ =~= signature_name());
            }
            Ok(
                Fields {
                    tx_hash: find_value(&es, &tx_hash_key),
                    gas: find_value(&es, &gas_key),
                    fee_per_gas: find_value(&es, &fee_per_gas_key),
                    signature: find_value(&es, &signature_key),
                },
            )
        },
    }
}

} // verus!
