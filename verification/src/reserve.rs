//! Reserving file name stems that are not in use.
//!
//! A stem is a base name followed by a number. Numbers are tried from 0
//! upwards, each once: a number whose stem is found occupied is passed over
//! for good, a number whose stem is found free is reserved, and either way
//! the next probe is for the next number. So with stems 0 and 2 free and 1
//! occupied, three reservations give 0, 2 and 3.
//!
//! A stem is occupied where a file is named by the stem, a dot and anything
//! after it. Whether one is, is for the caller to find out; the reservation
//! says which stem to probe, and by which pattern, and takes the answer.

use vstd::prelude::*;
use vstd::string::*;
use crate::text::{decimal, lemma_decimal_injective, texts, to_decimal};

verus! {

/// The stem for a base name and a number.
pub open spec fn stem(base: Seq<char>, suffix: nat) -> Seq<char> {
    base + decimal(suffix)
}

/// The pattern that matches the names of the files that occupy `stem`: the
/// stem, a dot, and a star for anything after it.
pub open spec fn pattern_for(stem: Seq<char>) -> Seq<char> {
    stem + seq!['.', '*']
}

/// The numbers that a run of probes found free, in rising order. The probe at
/// index `k` is the one for the number `k`, and `true` means occupied.
pub open spec fn free_suffixes(probes: Seq<bool>) -> Seq<nat>
    decreases probes.len(),
{
    if probes.len() == 0 {
        Seq::empty()
    } else {
        let before = free_suffixes(probes.drop_last());
        if probes.last() {
            before
        } else {
            before.push((probes.len() - 1) as nat)
        }
    }
}

/// The stems for a base name and a list of numbers.
pub open spec fn stems_of(base: Seq<char>, suffixes: Seq<nat>) -> Seq<Seq<char>> {
    Seq::new(suffixes.len(), |i: int| stem(base, suffixes[i]))
}

/// What `free_suffixes` holds: exactly the numbers that were probed and found
/// free, each once, the smaller first.
pub proof fn lemma_free_suffixes(probes: Seq<bool>)
    ensures
        free_suffixes(probes).len() <= probes.len(),
        forall|i: int|
            0 <= i < free_suffixes(probes).len() ==> {
                &&& (#[trigger] free_suffixes(probes)[i]) < probes.len()
                &&& !probes[free_suffixes(probes)[i] as int]
            },
        forall|i: int, j: int|
            0 <= i < j < free_suffixes(probes).len() ==> free_suffixes(probes)[i] < free_suffixes(
                probes,
            )[j],
        forall|k: int|
            0 <= k < probes.len() && !probes[k] ==> free_suffixes(probes).contains(k as nat),
    decreases probes.len(),
{
    if probes.len() > 0 {
        let front = probes.drop_last();
        lemma_free_suffixes(front);
        let before = free_suffixes(front);
        let all = free_suffixes(probes);
        assert forall|k: int| 0 <= k < probes.len() && !probes[k] implies all.contains(
            k as nat,
        ) by {
            if k < front.len() {
                assert(!front[k]);
                let at = choose|at: int| 0 <= at < before.len() && before[at] == k as nat;
                assert(all[at] == k as nat);
            } else {
                assert(all[all.len() - 1] == k as nat);
            }
        }
    }
}

/// Stems for different numbers differ.
pub proof fn lemma_stem_injective(base: Seq<char>, a: nat, b: nat)
    requires
        stem(base, a) == stem(base, b),
    ensures
        a == b,
{
    let left = stem(base, a);
    let right = stem(base, b);
    assert(left.skip(base.len() as int) =~= decimal(a));
    assert(right.skip(base.len() as int) =~= decimal(b));
    lemma_decimal_injective(a, b);
}

/// The stems that a run of probes reserves are all different.
pub proof fn lemma_stems_distinct(base: Seq<char>, probes: Seq<bool>)
    ensures
        stems_of(base, free_suffixes(probes)).no_duplicates(),
{
    let suffixes = free_suffixes(probes);
    let stems = stems_of(base, suffixes);
    lemma_free_suffixes(probes);
    assert forall|i: int, j: int|
        0 <= i < stems.len() && 0 <= j < stems.len() && i != j implies stems[i] != stems[j] by {
        if stems[i] == stems[j] {
            lemma_stem_injective(base, suffixes[i], suffixes[j]);
            if i < j {
                assert(suffixes[i] < suffixes[j]);
            } else {
                assert(suffixes[j] < suffixes[i]);
            }
        }
    }
}

/// The first `count` of `list`, or all of it where it is shorter.
pub open spec fn first<A>(list: Seq<A>, count: nat) -> Seq<A> {
    if list.len() <= count {
        list
    } else {
        list.take(count as int)
    }
}

/// A reservation as plain values: the base name, how many stems are wanted,
/// the number to probe next, and the stems reserved so far.
pub struct ReservationView {
    pub base: Seq<char>,
    pub wanted: nat,
    pub next: nat,
    pub stems: Seq<Seq<char>>,
}

impl ReservationView {
    /// A reservation with no probe made yet.
    pub open spec fn fresh(base: Seq<char>, wanted: nat) -> ReservationView {
        ReservationView { base, wanted, next: 0, stems: Seq::empty() }
    }

    /// As many stems as wanted are reserved.
    pub open spec fn is_complete(self) -> bool {
        self.stems.len() >= self.wanted
    }

    /// The stem to probe next.
    pub open spec fn candidate(self) -> Seq<char> {
        stem(self.base, self.next)
    }

    /// After the answer to the probe of `candidate`: the stem is reserved
    /// unless it is occupied, and the next number is up. A complete
    /// reservation takes no more answers.
    pub open spec fn reported(self, occupied: bool) -> ReservationView {
        if self.is_complete() {
            self
        } else {
            ReservationView {
                next: self.next + 1,
                stems: if occupied {
                    self.stems
                } else {
                    self.stems.push(self.candidate())
                },
                ..self
            }
        }
    }

    /// After the answers `probes`, taken one after the other.
    pub open spec fn after(self, probes: Seq<bool>) -> ReservationView
        decreases probes.len(),
    {
        if probes.len() == 0 {
            self
        } else {
            self.after(probes.drop_last()).reported(probes.last())
        }
    }
}

/// What a reservation comes to. Probing the numbers from 0 upwards, it
/// reserves the stems of the numbers found free, the smaller first, until it
/// has as many as wanted. No stem is reserved twice, and none that was found
/// occupied.
pub proof fn lemma_reservation(base: Seq<char>, wanted: nat, probes: Seq<bool>)
    ensures
        ReservationView::fresh(base, wanted).after(probes).stems == stems_of(
            base,
            first(free_suffixes(probes), wanted),
        ),
        ReservationView::fresh(base, wanted).after(probes).stems.no_duplicates(),
        ReservationView::fresh(base, wanted).after(probes).stems.len() <= wanted,
        ReservationView::fresh(base, wanted).after(probes).base == base,
        ReservationView::fresh(base, wanted).after(probes).wanted == wanted,
        free_suffixes(probes).len() < wanted ==> ReservationView::fresh(base, wanted).after(
            probes,
        ).next == probes.len(),
    decreases probes.len(),
{
    let fresh = ReservationView::fresh(base, wanted);
    let free = free_suffixes(probes);
    if probes.len() == 0 {
        assert(fresh.stems =~= stems_of(base, first(free, wanted)));
    } else {
        let front = probes.drop_last();
        let before = fresh.after(front);
        lemma_reservation(base, wanted, front);
        let free_before = free_suffixes(front);
        let kept_before = first(free_before, wanted);
        assert(before.stems.len() == kept_before.len());
        if free_before.len() > wanted {
            assert(free_before.take(wanted as int).len() == wanted);
        }
        assert(free == if probes.last() {
            free_before
        } else {
            free_before.push((probes.len() - 1) as nat)
        });
        if before.is_complete() {
            assert(free_before.len() >= wanted);
            assert(first(free, wanted) =~= kept_before);
        } else {
            assert(free_before.len() < wanted);
            assert(kept_before == free_before);
            assert(before.next == front.len());
            assert(first(free, wanted) == free);
            assert(fresh.after(probes) == before.reported(probes.last()));
            assert(fresh.after(probes).stems =~= stems_of(base, free));
        }
    }
    lemma_stems_distinct(base, probes);
    let all = stems_of(base, free);
    let kept = stems_of(base, first(free, wanted));
    assert forall|i: int, j: int|
        0 <= i < kept.len() && 0 <= j < kept.len() && i != j implies kept[i] != kept[j] by {
        assert(kept[i] == all[i]);
        assert(kept[j] == all[j]);
    }
}

/// A reservation of file name stems in progress.
#[derive(Debug)]
pub struct Reservation {
    base: String,
    wanted: usize,
    next: u64,
    stems: Vec<String>,
}

impl View for Reservation {
    type V = ReservationView;

    closed spec fn view(&self) -> ReservationView {
        ReservationView {
            base: self.base@,
            wanted: self.wanted as nat,
            next: self.next as nat,
            stems: texts(self.stems@),
        }
    }
}

impl Reservation {
    /// A reservation of `wanted` stems on the base name `base`, with no probe
    /// made yet.
    pub fn new(base: &str, wanted: usize) -> (reservation: Reservation)
        ensures
            reservation@ == ReservationView::fresh(base@, wanted as nat),
    {
        let reservation = Reservation { base: base.to_owned(), wanted, next: 0, stems: Vec::new() };
        proof {
            assert(texts(reservation.stems@) =~= Seq::<Seq<char>>::empty());
        }
        reservation
    }

    /// Whether as many stems as wanted are reserved.
    pub fn is_complete(&self) -> (complete: bool)
        ensures
            complete == self@.is_complete(),
    {
        self.stems.len() >= self.wanted
    }

    /// The number that the next probe is for, which is also how many probes
    /// were made.
    pub fn number(&self) -> (next: u64)
        ensures
            next == self@.next,
    {
        self.next
    }

    /// The stem to probe next: the base name and the next number.
    pub fn candidate(&self) -> (stem: String)
        ensures
            stem@ == self@.candidate(),
    {
        self.base.clone().concat(to_decimal(self.next).as_str())
    }

    /// The pattern to probe with: it matches the names of the files that
    /// occupy `candidate`.
    pub fn pattern(&self) -> (pattern: String)
        ensures
            pattern@ == pattern_for(self@.candidate()),
    {
        proof {
            reveal_strlit(".*");
        }
        let pattern = self.candidate().concat(".*");
        proof {
            assert(pattern@ =~= pattern_for(self@.candidate()));
        }
        pattern
    }

    /// Takes the answer to the probe of `candidate`.
    ///
    /// The numbers must not have run out: `number` is below `u64::MAX`.
    pub fn report(&mut self, occupied: bool)
        requires
            old(self)@.next < u64::MAX,
        ensures
            final(self)@ == old(self)@.reported(occupied),
    {
        if self.stems.len() >= self.wanted {
            return ;
        }
        if !occupied {
            let stem = self.candidate();
            self.stems.push(stem);
            proof {
                assert(texts(self.stems@) =~= texts(old(self).stems@).push(stem@));
            }
        }
        self.next = self.next + 1;
    }

    /// The stems reserved so far, in the order of their numbers.
    pub fn stems(&self) -> (stems: &Vec<String>)
        ensures
            texts(stems@) == self@.stems,
    {
        &self.stems
    }

    /// Ends the reservation and hands out its stems.
    pub fn into_stems(self) -> (stems: Vec<String>)
        ensures
            texts(stems@) == self@.stems,
    {
        self.stems
    }
}

} // verus!
