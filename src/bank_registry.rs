use vstd::prelude::*;
use crate::waveform::OscillatorType;

verus! {

/// The four waveforms, in the order banks are built for them.
pub open spec fn all_kinds() -> Seq<OscillatorType> {
    seq![OscillatorType::Sine, OscillatorType::Square, OscillatorType::Sawtooth, OscillatorType::Triangle]
}

/// Banks built so far, at most one per waveform and sample rate in hertz.
/// Entries are added on demand and never taken out.
pub struct BankRegistry<B> {
    entries: Vec<(OscillatorType, u32, B)>,
}

impl<B> BankRegistry<B> {
    pub closed spec fn keys(&self) -> Seq<(OscillatorType, u32)> {
        self.entries@.map_values(|e: (OscillatorType, u32, B)| (e.0, e.1))
    }

    pub closed spec fn banks(&self) -> Seq<B> {
        self.entries@.map_values(|e: (OscillatorType, u32, B)| e.2)
    }

    pub open spec fn wf(&self) -> bool {
        &&& self.keys().no_duplicates()
        &&& self.keys().len() == self.banks().len()
    }

    pub open spec fn contains(&self, kind: OscillatorType, rate: u32) -> bool {
        self.keys().contains((kind, rate))
    }

    pub fn new() -> (r: Self)
        ensures
            r.wf(),
            r.keys().len() == 0,
    {
        let r = BankRegistry { entries: Vec::new() };
        assert(r.keys() =~= Seq::<(OscillatorType, u32)>::empty());
        r
    }

    /// Where the bank of `kind` at `rate` stands, if it has been built.
    pub fn find(&self, kind: OscillatorType, rate: u32) -> (r: Option<usize>)
        requires
            self.wf(),
        ensures
            r is None <==> !self.contains(kind, rate),
            r matches Some(i) ==> i < self.keys().len() && self.keys()[i as int] == (kind, rate),
    {
        let mut i: usize = 0;
        while i < self.entries.len()
            invariant
                self.wf(),
                i <= self.entries@.len(),
                forall|j: int| 0 <= j < i ==> #[trigger] self.keys()[j] != (kind, rate),
            decreases self.entries@.len() - i,
        {
            assert(self.keys()[i as int] == (self.entries@[i as int].0, self.entries@[i as int].1));
            if self.entries[i].0 == kind && self.entries[i].1 == rate {
                assert(self.keys().contains((kind, rate)));
                return Some(i);
            }
            i += 1;
        }
        None
    }

    /// The bank at position `i`.
    pub fn bank(&self, i: usize) -> (r: &B)
        requires
            i < self.banks().len(),
        ensures
            *r == self.banks()[i as int],
    {
        &self.entries[i].2
    }

    /// Records `bank` as the bank of `kind` at `rate`, which had none.
    pub fn insert(&mut self, kind: OscillatorType, rate: u32, bank: B)
        requires
            old(self).wf(),
            !old(self).contains(kind, rate),
        ensures
            final(self).wf(),
            final(self).keys() == old(self).keys().push((kind, rate)),
            final(self).banks() == old(self).banks().push(bank),
    {
        self.entries.push((kind, rate, bank));
        assert(self.keys() =~= old(self).keys().push((kind, rate)));
        assert(self.banks() =~= old(self).banks().push(bank));
    }

    /// The waveforms that have no bank at `rate` yet, in the order of
    /// `all_kinds`.
    pub fn missing_kinds(&self, rate: u32) -> (r: Vec<OscillatorType>)
        requires
            self.wf(),
        ensures
            r@ == all_kinds().filter(|k: OscillatorType| !self.contains(k, rate)),
    {
        let kinds = [
            OscillatorType::Sine,
            OscillatorType::Square,
            OscillatorType::Sawtooth,
            OscillatorType::Triangle,
        ];
        assert(kinds@ == all_kinds());
        let mut missing: Vec<OscillatorType> = Vec::new();
        let mut i: usize = 0;
        while i < 4
            invariant
                self.wf(),
                kinds@ == all_kinds(),
                i <= 4,
                missing@ == all_kinds().take(i as int).filter(|k: OscillatorType| !self.contains(k, rate)),
            decreases 4 - i,
        {
            let kind = kinds[i];
            let found = self.find(kind, rate);
            assert(all_kinds().take(i as int + 1).drop_last() =~= all_kinds().take(i as int));
            reveal(Seq::filter);
            if found.is_none() {
                missing.push(kind);
            }
            i += 1;
        }
        assert(all_kinds().take(4) =~= all_kinds());
        missing
    }

    /// Whether every waveform has its bank at `rate`.
    pub fn has_all_kinds(&self, rate: u32) -> (r: bool)
        requires
            self.wf(),
        ensures
            r == forall|k: OscillatorType| self.contains(k, rate),
    {
        let missing = self.missing_kinds(rate);
        proof {
            broadcast use vstd::seq_lib::group_filter_ensures;
            reveal_with_fuel(Seq::filter, 5);
            assert forall|k: OscillatorType| missing@.len() == 0 implies self.contains(k, rate) by {
                assert(all_kinds().contains(k)) by {
                    match k {
                        OscillatorType::Sine => assert(all_kinds()[0] == k),
                        OscillatorType::Square => assert(all_kinds()[1] == k),
                        OscillatorType::Sawtooth => assert(all_kinds()[2] == k),
                        OscillatorType::Triangle => assert(all_kinds()[3] == k),
                    }
                }
            }
            if missing@.len() > 0 {
                assert(missing@.contains(missing@[0]));
            }
        }
        missing.len() == 0
    }
}

} // verus!
