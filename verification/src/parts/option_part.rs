//! Option bags: entries of a small integer key and a typed value. No key
//! occurs twice; setting a key that is there replaces its value.

use crate::error::{HdbError, ImplError};
use crate::parts::option_value::{
    lemma_option_size, option_fits, option_size, option_value_at, option_wire, OptionData,
    OptionValue,
};
use crate::repeat::{fold_at, lemma_fold_failure, lemma_fold_step};
use crate::wire::{agrees_view, get_u8, take_u8, write_u8};
use vstd::prelude::*;

verus! {

/// One option.
#[derive(Clone, Debug, PartialEq, Eq)]
pub struct OptionEntry {
    pub id: u8,
    pub value: OptionValue,
}

/// The options of a bag, in the order in which they are sent.
pub type Options = Seq<(u8, OptionData)>;

/// Where the option with this key is, if it is there.
pub open spec fn position_of(m: Options, id: u8) -> Option<int> {
    if exists|i: int| 0 <= i < m.len() && (#[trigger] m[i]).0 == id {
        Some(choose|i: int| 0 <= i < m.len() && (#[trigger] m[i]).0 == id)
    } else {
        None
    }
}

/// The value of the option with this key, if it is there.
pub open spec fn lookup(m: Options, id: u8) -> Option<OptionData> {
    match position_of(m, id) {
        Some(i) => Some(m[i].1),
        None => None,
    }
}

/// The bag with the option set: replaced where the key was there, added at
/// the end where it was not.
pub open spec fn put(m: Options, id: u8, v: OptionData) -> Options {
    match position_of(m, id) {
        Some(i) => m.update(i, (id, v)),
        None => m.push((id, v)),
    }
}

/// No key occurs twice.
pub open spec fn distinct(m: Options) -> bool {
    forall|i: int, j: int| 0 <= i < j < m.len() ==> (#[trigger] m[i]).0 != (#[trigger] m[j]).0
}

/// Every string fits its length field.
pub open spec fn options_fit(m: Options) -> bool {
    forall|i: int| 0 <= i < m.len() ==> option_fits((#[trigger] m[i]).1)
}

/// The bytes of a bag: for each option its key and its value.
pub open spec fn options_wire(m: Options) -> Seq<u8>
    decreases m.len(),
{
    if m.len() == 0 {
        Seq::<u8>::empty()
    } else {
        options_wire(m.drop_last()) + (seq![m.last().0] + option_wire(m.last().1))
    }
}

/// Number of bytes of a bag.
pub open spec fn options_size(m: Options) -> int
    decreases m.len(),
{
    if m.len() == 0 {
        0
    } else {
        options_size(m.drop_last()) + 1 + option_size(m.last().1)
    }
}

/// A bag has the size that `options_size` says.
pub proof fn lemma_options_size(m: Options)
    ensures
        options_wire(m).len() == options_size(m),
        options_size(m) >= 0,
    decreases m.len(),
{
    if m.len() > 0 {
        lemma_options_size(m.drop_last());
        lemma_option_size(m.last().1);
    }
}

/// Setting an option keeps the keys distinct.
pub proof fn lemma_put_distinct(m: Options, id: u8, v: OptionData)
    requires
        distinct(m),
    ensures
        distinct(put(m, id, v)),
        lookup(put(m, id, v), id) == Some(v),
        put(m, id, v).len() == m.len() + (if position_of(m, id) is Some {
            0int
        } else {
            1int
        }),
{
    let n = put(m, id, v);
    match position_of(m, id) {
        Some(k) => {
            assert(n[k].0 == id);
            assert forall|i: int| 0 <= i < n.len() && (#[trigger] n[i]).0 == id implies i == k by {
                if i != k {
                    assert(m[i].0 == id);
                    assert(m[k].0 == id);
                }
            }
        },
        None => {
            let k = m.len() as int;
            assert(n[k].0 == id);
            assert forall|i: int| 0 <= i < n.len() && (#[trigger] n[i]).0 == id implies i == k by {
                if i != k {
                    assert(m[i].0 == id);
                }
            }
        },
    }
}

/// What the bytes at `pos` say of one option.
pub open spec fn entry_at(s: Seq<u8>, pos: int) -> Result<((u8, OptionData), int), HdbError> {
    match get_u8(s, pos) {
        Err(e) => Err(e),
        Ok((id, p)) => match option_value_at(s, p) {
            Err(e) => Err(e),
            Ok((v, q)) => Ok(((id, v), q)),
        },
    }
}

/// Reads one entry of a list.
pub open spec fn entry_reader() -> spec_fn(Seq<u8>, int) -> Result<
    ((u8, OptionData), int),
    HdbError,
> {
    |s: Seq<u8>, p: int| entry_at(s, p)
}

/// Puts one entry into the options read so far.
pub open spec fn entry_taker() -> spec_fn(Options, (u8, OptionData)) -> Options {
    |m: Options, x: (u8, OptionData)| put(m, x.0, x.1)
}

/// What the bytes at `pos` say of a bag of `count` options.
pub open spec fn options_at(s: Seq<u8>, pos: int, count: nat) -> Result<(Options, int), HdbError> {
    fold_at(entry_reader(), entry_taker(), Seq::<(u8, OptionData)>::empty(), s, pos, count)
}

/// The options of a vector of entries.
pub open spec fn entry_views(v: Seq<OptionEntry>) -> Options {
    Seq::new(v.len(), |i: int| (v[i].id, v[i].value@))
}

/// A bag of options.
#[derive(Debug, PartialEq, Eq)]
pub struct OptionPart {
    entries: Vec<OptionEntry>,
}

impl View for OptionPart {
    type V = Options;

    closed spec fn view(&self) -> Options {
        entry_views(self.entries@)
    }
}

impl OptionPart {
    #[verifier::type_invariant]
    closed spec fn inv(self) -> bool {
        distinct(entry_views(self.entries@))
    }

    /// The empty bag.
    pub fn new() -> (r: OptionPart)
        ensures
            r@ == Seq::<(u8, OptionData)>::empty(),
    {
        let r = OptionPart { entries: Vec::new() };
        assert(r@ =~= Seq::<(u8, OptionData)>::empty());
        r
    }

    /// Index of the option with this key.
    fn find(&self, id: u8) -> (r: Option<usize>)
        ensures
            distinct(self@),
            match r {
                Some(k) => position_of(self@, id) == Some(k as int) && k < self.entries@.len(),
                None => position_of(self@, id) is None,
            },
    {
        proof {
            use_type_invariant(self);
        }
        let mut i: usize = 0;
        while i < self.entries.len()
            invariant
                i <= self.entries@.len(),
                forall|j: int| 0 <= j < i ==> (#[trigger] self@[j]).0 != id,
                self@ == entry_views(self.entries@),
                distinct(self@),
            decreases self.entries@.len() - i,
        {
            if self.entries[i].id == id {
                proof {
                    let m = self@;
                    assert(m[i as int].0 == id);
                    let c = choose|c: int| 0 <= c < m.len() && (#[trigger] m[c]).0 == id;
                    assert(m[c].0 == id);
                    if c < i {
                        assert(false);
                    }
                    if c > i {
                        assert(false);
                    }
                }
                return Some(i);
            }
            i = i + 1;
        }
        None
    }

    /// Sets an option.
    pub fn insert(&mut self, id: u8, value: OptionValue)
        ensures
            final(self)@ == put(old(self)@, id, value@),
            distinct(old(self)@),
            distinct(final(self)@),
            lookup(final(self)@, id) == Some(value@),
    {
        let found: Option<usize> = self.find(id);
        proof {
            lemma_put_distinct(self@, id, value@);
        }
        let mut entries: Vec<OptionEntry> = Vec::new();
        proof {
            assert(entry_views(entries@) =~= Seq::<(u8, OptionData)>::empty());
        }
        std::mem::swap(&mut self.entries, &mut entries);
        match found {
            Some(k) => {
                entries.set(k, OptionEntry { id, value });
            },
            None => {
                entries.push(OptionEntry { id, value });
            },
        }
        proof {
            assert(entry_views(entries@) =~= put(old(self)@, id, value@));
        }
        std::mem::swap(&mut self.entries, &mut entries);
    }

    /// The value of the option with this key.
    pub fn get(&self, id: u8) -> (r: Option<&OptionValue>)
        ensures
            match r {
                Some(v) => lookup(self@, id) == Some(v@),
                None => lookup(self@, id) is None,
            },
    {
        match self.find(id) {
            Some(k) => Some(&self.entries[k].value),
            None => None,
        }
    }

    /// The value of an option that is an `INT`.
    pub fn get_int(&self, id: u8) -> (r: Option<i32>)
        ensures
            match r {
                Some(i) => lookup(self@, id) == Some(OptionData::Int(i)),
                None => !(lookup(self@, id) matches Some(OptionData::Int(_))),
            },
    {
        match self.get(id) {
            Some(OptionValue::INT(i)) => Some(*i),
            _ => None,
        }
    }

    /// The value of an option that is a `BOOLEAN`.
    pub fn get_bool(&self, id: u8) -> (r: Option<bool>)
        ensures
            match r {
                Some(b) => lookup(self@, id) == Some(OptionData::Boolean(b)),
                None => !(lookup(self@, id) matches Some(OptionData::Boolean(_))),
            },
    {
        match self.get(id) {
            Some(OptionValue::BOOLEAN(b)) => Some(*b),
            _ => None,
        }
    }

    /// The value of an option that is a `BSTRING`.
    pub fn get_bytes(&self, id: u8) -> (r: Option<&Vec<u8>>)
        ensures
            match r {
                Some(v) => lookup(self@, id) == Some(OptionData::Bytes(v@)),
                None => !(lookup(self@, id) matches Some(OptionData::Bytes(_))),
            },
    {
        match self.get(id) {
            Some(OptionValue::BSTRING(v)) => Some(v),
            _ => None,
        }
    }

    /// The option at an index, in the order in which the options are sent.
    pub fn entry(&self, i: usize) -> (r: &OptionEntry)
        requires
            i < self@.len(),
        ensures
            (r.id, r.value@) == self@[i as int],
    {
        &self.entries[i]
    }

    /// Number of options.
    pub fn count(&self) -> (r: usize)
        ensures
            r == self@.len(),
            distinct(self@),
    {
        proof {
            use_type_invariant(self);
        }
        self.entries.len()
    }

    /// Number of bytes that `emit` writes. Fails if a string does not fit its
    /// length field, or if the size does not fit a `usize`.
    pub fn size(&self) -> (r: Result<usize, HdbError>)
        ensures
            match r {
                Ok(n) => options_fit(self@) && n == options_size(self@),
                Err(e) => e == HdbError::Impl(ImplError::TooLarge) && (!options_fit(self@)
                    || options_size(self@) > usize::MAX),
            },
    {
        let mut total: usize = 0;
        let mut i: usize = 0;
        proof {
            assert(self@.take(0) =~= Seq::<(u8, OptionData)>::empty());
        }
        while i < self.entries.len()
            invariant
                i <= self.entries@.len(),
                self@ == entry_views(self.entries@),
                options_fit(self@.take(i as int)),
                total == options_size(self@.take(i as int)),
            decreases self.entries@.len() - i,
        {
            proof {
                assert(self@.take(i + 1).drop_last() =~= self@.take(i as int));
                assert(self@.take(i + 1).last() == self@[i as int]);
                lemma_options_size(self@.take(i as int));
                lemma_options_grow(self@, i as int);
            }
            let n: usize = match self.entries[i].value.size() {
                Ok(n) => n,
                Err(e) => {
                    return Err(e);
                },
            };
            proof {
                assert forall|j: int| 0 <= j < i + 1 implies option_fits(
                    (#[trigger] self@.take(i + 1)[j]).1,
                ) by {
                    if j < i {
                        assert(self@.take(i as int)[j] == self@.take(i + 1)[j]);
                    }
                }
            }
            total = match total.checked_add(1) {
                Some(t) => t,
                None => {
                    return Err(HdbError::Impl(ImplError::TooLarge));
                },
            };
            total = match total.checked_add(n) {
                Some(t) => t,
                None => {
                    return Err(HdbError::Impl(ImplError::TooLarge));
                },
            };
            i = i + 1;
        }
        proof {
            assert(self@.take(i as int) =~= self@);
        }
        Ok(total)
    }

    /// Appends all options. Fails, and writes nothing, if a string does not
    /// fit its length field.
    pub fn emit(&self, w: &mut Vec<u8>) -> (r: Result<(), HdbError>)
        ensures
            match r {
                Ok(()) => options_fit(self@) && final(w)@ == old(w)@ + options_wire(self@),
                Err(e) => e == HdbError::Impl(ImplError::TooLarge) && final(w)@ == old(w)@ && (
                !options_fit(self@) || options_size(self@) > usize::MAX),
            },
    {
        let _ = self.size()?;
        let mut i: usize = 0;
        proof {
            assert(self@.take(0) =~= Seq::<(u8, OptionData)>::empty());
            assert(w@ =~= old(w)@ + options_wire(self@.take(0)));
        }
        while i < self.entries.len()
            invariant
                i <= self.entries@.len(),
                self@ == entry_views(self.entries@),
                options_fit(self@),
                w@ == old(w)@ + options_wire(self@.take(i as int)),
            decreases self.entries@.len() - i,
        {
            proof {
                assert(self@.take(i + 1).drop_last() =~= self@.take(i as int));
                assert(self@.take(i + 1).last() == self@[i as int]);
                assert(option_fits(self@[i as int].1));
            }
            let ghost before = w@;
            write_u8(w, self.entries[i].id);
            match self.entries[i].value.emit(w) {
                Ok(()) => {},
                Err(e) => {
                    proof {
                        assert(false);
                    }
                    return Err(e);
                },
            }
            proof {
                assert(w@ =~= before + (seq![self@[i as int].0] + option_wire(self@[i as int].1)));
                assert(w@ =~= old(w)@ + options_wire(self@.take(i + 1)));
            }
            i = i + 1;
        }
        proof {
            assert(self@.take(i as int) =~= self@);
        }
        Ok(())
    }

    /// Reads a bag of `count` options.
    pub fn parse(count: usize, b: &[u8], pos: usize) -> (r: Result<(OptionPart, usize), HdbError>)
        ensures
            agrees_view(r, options_at(b@, pos as int, count as nat)),
            r matches Ok((o, _)) ==> distinct(o@),
    {
        let mut part: OptionPart = OptionPart::new();
        let mut p: usize = pos;
        let mut i: usize = 0;
        let ghost empty = Seq::<(u8, OptionData)>::empty();
        while i < count
            invariant
                i <= count,
                distinct(part@),
                empty == Seq::<(u8, OptionData)>::empty(),
                fold_at(entry_reader(), entry_taker(), empty, b@, pos as int, i as nat) == Ok::<
                    _,
                    HdbError,
                >((part@, p as int)),
            decreases count - i,
        {
            proof {
                lemma_fold_step(entry_reader(), entry_taker(), empty, b@, pos as int, i as nat);
                assert(entry_reader()(b@, p as int) == entry_at(b@, p as int));
            }
            let ghost next = fold_at(
                entry_reader(),
                entry_taker(),
                empty,
                b@,
                pos as int,
                (i + 1) as nat,
            );
            let step: Result<(u8, usize), HdbError> = take_u8(b, p);
            let (id, q) = match step {
                Ok(x) => x,
                Err(e) => {
                    proof {
                        assert(next == Err::<(Options, int), _>(e));
                        lemma_fold_failure(
                            entry_reader(),
                            entry_taker(),
                            empty,
                            b@,
                            pos as int,
                            (i + 1) as nat,
                            count as nat,
                        );
                    }
                    return Err(e);
                },
            };
            let (value, q2) = match OptionValue::parse(b, q) {
                Ok(x) => x,
                Err(e) => {
                    proof {
                        assert(next == Err::<(Options, int), _>(e));
                        lemma_fold_failure(
                            entry_reader(),
                            entry_taker(),
                            empty,
                            b@,
                            pos as int,
                            (i + 1) as nat,
                            count as nat,
                        );
                    }
                    return Err(e);
                },
            };
            part.insert(id, value);
            p = q2;
            i = i + 1;
        }
        Ok((part, p))
    }
}

/// The size of the first `i + 1` options is that of the first `i` and of the
/// one after them, and sizes only grow.
pub proof fn lemma_options_grow(m: Options, i: int)
    requires
        0 <= i < m.len(),
    ensures
        options_size(m.take(i + 1)) == options_size(m.take(i)) + 1 + option_size(m[i].1),
        options_size(m.take(i + 1)) <= options_size(m),
        option_size(m[i].1) >= 0,
    decreases m.len() - i,
{
    assert(m.take(i + 1).drop_last() =~= m.take(i));
    assert(m.take(i + 1).last() == m[i]);
    lemma_option_size(m[i].1);
    if i + 1 < m.len() {
        lemma_options_grow(m, i + 1);
    } else {
        assert(m.take(i + 1) =~= m);
    }
}

} // verus!
