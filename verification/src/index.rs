//! A secondary index over one text column of a table.
//!
//! The index knows, for each value that occurs in the column, the places
//! of the rows that hold it, in ascending order. A look-up by value is
//! one hash look-up and costs the same however many rows the table has.

use vstd::hash_map::StringHashMap;
use vstd::prelude::*;

verus! {

/// Whether a list of places ascends strictly.
pub open spec fn ascending(places: Seq<usize>) -> bool {
    forall|i: int, j: int| 0 <= i < j < places.len() ==> places[i] < places[j]
}

/// Whether a list of places holds the place `q`.
pub open spec fn lists(places: Seq<usize>, q: int) -> bool {
    exists|k: int| 0 <= k < places.len() && #[trigger] places[k] == q
}

/// Whether `places` lists, in ascending order, exactly the places at which
/// `column` holds `value`, and there is such a place.
pub open spec fn lists_places_of(places: Seq<usize>, column: Seq<Seq<char>>, value: Seq<char>) -> bool {
    &&& places.len() > 0
    &&& ascending(places)
    &&& forall|q: int| #[trigger] lists(places, q) <==> (0 <= q < column.len() && column[q] == value)
}

/// Whether `p` is the first place at which `column` holds `value`.
pub open spec fn is_first_place_of(column: Seq<Seq<char>>, value: Seq<char>, p: int) -> bool {
    &&& 0 <= p < column.len()
    &&& column[p] == value
    &&& forall|j: int| 0 <= j < p ==> #[trigger] column[j] != value
}

/// Copies a list of places.
fn copy_places(list: &Vec<usize>) -> (copy: Vec<usize>)
    ensures
        copy@ == list@,
{
    let mut copy: Vec<usize> = Vec::new();
    let mut i: usize = 0;
    while i < list.len()
        invariant
            i <= list.len(),
            copy@ == list@.take(i as int),
        decreases list.len() - i,
    {
        copy.push(list[i]);
        assert(list@.take(i + 1) =~= list@.take(i as int).push(list@[i as int]));
        i += 1;
    }
    assert(list@.take(list.len() as int) =~= list@);
    copy
}

/// The list without the place `p`.
fn without(list: &Vec<usize>, p: usize) -> (rest: Vec<usize>)
    requires
        ascending(list@),
    ensures
        ascending(rest@),
        forall|q: int|
            #![trigger lists(rest@, q)]
            #![trigger lists(list@, q)]
            lists(rest@, q) <==> lists(list@, q) && q != p,
{
    let mut rest: Vec<usize> = Vec::new();
    let mut i: usize = 0;
    while i < list.len()
        invariant
            i <= list.len(),
            ascending(list@),
            ascending(rest@),
            forall|k: int| 0 <= k < rest.len() ==> lists(list@.take(i as int), #[trigger] rest@[k] as int),
            forall|q: int|
                #![trigger lists(rest@, q)]
                #![trigger lists(list@.take(i as int), q)]
                lists(rest@, q) <==> lists(list@.take(i as int), q) && q != p,
        decreases list.len() - i,
    {
        let ghost seen = list@.take(i as int);
        let ghost next = list@.take(i + 1);
        let ghost before = rest@;
        let e = list[i];
        proof {
            assert(next =~= seen.push(e));
            assert forall|q: int| #[trigger] lists(next, q) <==> lists(seen, q) || q == e by {
                if lists(seen, q) {
                    let k = choose|k: int| 0 <= k < seen.len() && #[trigger] seen[k] == q;
                    assert(next[k] == q);
                }
                if q == e {
                    assert(next[i as int] == q);
                }
                if lists(next, q) {
                    let k = choose|k: int| 0 <= k < next.len() && #[trigger] next[k] == q;
                    if k < i {
                        assert(seen[k] == q);
                    }
                }
            }
        }
        if e != p {
            rest.push(e);
            proof {
                assert forall|a: int, b: int| 0 <= a < b < rest@.len() implies rest@[a] < rest@[b] by {
                    if b == before.len() {
                        assert(lists(seen, before[a] as int));
                        let k = choose|k: int| 0 <= k < seen.len() && #[trigger] seen[k] == before[a];
                        assert(list@[k] < list@[i as int]);
                    } else {
                        assert(before[a] < before[b]);
                    }
                }
                assert forall|q: int| #[trigger] lists(rest@, q) <==> lists(before, q) || q == e by {
                    if lists(before, q) {
                        let k = choose|k: int| 0 <= k < before.len() && #[trigger] before[k] == q;
                        assert(rest@[k] == q);
                    }
                    if q == e {
                        assert(rest@[before.len() as int] == q);
                    }
                    if lists(rest@, q) {
                        let k = choose|k: int| 0 <= k < rest@.len() && #[trigger] rest@[k] == q;
                        if k < before.len() {
                            assert(before[k] == q);
                        }
                    }
                }
                assert forall|k: int| 0 <= k < rest.len() implies lists(
                    next,
                    #[trigger] rest@[k] as int,
                ) by {
                    if k < before.len() {
                        assert(lists(seen, before[k] as int));
                    }
                }
            }
        } else {
            proof {
                assert forall|k: int| 0 <= k < rest.len() implies lists(
                    next,
                    #[trigger] rest@[k] as int,
                ) by {
                    assert(lists(seen, before[k] as int));
                }
            }
        }
        proof {
            assert forall|q: int|
                #![trigger lists(rest@, q)]
                #![trigger lists(next, q)]
                lists(rest@, q) <==> lists(next, q) && q != p by {
                assert(lists(next, q) <==> lists(seen, q) || q == e);
                assert(lists(before, q) <==> lists(seen, q) && q != p);
                if e != p {
                    assert(lists(rest@, q) <==> lists(before, q) || q == e);
                }
            }
        }
        i += 1;
    }
    assert(list@.take(list.len() as int) =~= list@);
    rest
}

/// The list with the place `p` put where the order asks for it.
fn with_place(list: &Vec<usize>, p: usize) -> (more: Vec<usize>)
    requires
        ascending(list@),
        !lists(list@, p as int),
    ensures
        ascending(more@),
        more@.len() > 0,
        forall|q: int|
            #![trigger lists(more@, q)]
            #![trigger lists(list@, q)]
            lists(more@, q) <==> lists(list@, q) || q == p,
{
    let mut more: Vec<usize> = Vec::new();
    let mut i: usize = 0;
    while i < list.len() && list[i] < p
        invariant
            i <= list.len(),
            more@ == list@.take(i as int),
            forall|k: int| 0 <= k < i ==> list@[k] < p,
        decreases list.len() - i,
    {
        more.push(list[i]);
        assert(list@.take(i + 1) =~= list@.take(i as int).push(list@[i as int]));
        i += 1;
    }
    let split = i;
    proof {
        assert forall|k: int| split <= k < list.len() implies list@[k] > p by {
            assert(list@[split as int] >= p);
            if list@[split as int] == p {
                assert(lists(list@, p as int));
            }
            if k > split {
                assert(list@[split as int] < list@[k]);
            }
        }
    }
    more.push(p);
    while i < list.len()
        invariant
            split <= i <= list.len(),
            more@ == list@.take(split as int).push(p) + list@.subrange(split as int, i as int),
        decreases list.len() - i,
    {
        more.push(list[i]);
        assert(list@.subrange(split as int, i + 1) =~= list@.subrange(split as int, i as int).push(
            list@[i as int],
        ));
        assert(more@ =~= list@.take(split as int).push(p) + list@.subrange(split as int, i + 1));
        i += 1;
    }
    proof {
        let s = split as int;
        assert(more@.len() == list@.len() + 1);
        assert forall|k: int| 0 <= k < more@.len() implies #[trigger] more@[k] == (if k < s {
            list@[k]
        } else if k == s {
            p
        } else {
            list@[k - 1]
        }) by {
            if k > s {
                assert(more@[k] == list@.subrange(s, list@.len() as int)[k - s - 1]);
            }
        }
        assert forall|a: int, b: int| 0 <= a < b < more@.len() implies more@[a] < more@[b] by {
            if b < s {
                assert(list@[a] < list@[b]);
            } else if b == s {
            } else if a < s {
                assert(list@[a] < p);
                assert(list@[b - 1] > p);
            } else if a == s {
                assert(list@[b - 1] > p);
            } else {
                assert(list@[a - 1] < list@[b - 1]);
            }
        }
        assert forall|q: int| lists(more@, q) <==> lists(list@, q) || q == p by {
            if lists(list@, q) {
                let k = choose|k: int| 0 <= k < list@.len() && #[trigger] list@[k] == q;
                if k < s {
                    assert(more@[k] == q);
                } else {
                    assert(more@[k + 1] == q);
                }
            }
            if q == p {
                assert(more@[s] == q);
            }
            if lists(more@, q) {
                let k = choose|k: int| 0 <= k < more@.len() && #[trigger] more@[k] == q;
                if k < s {
                    assert(list@[k] == q);
                } else if k > s {
                    assert(list@[k - 1] == q);
                }
            }
        }
    }
    more
}

/// An index over a column of strings. Its view is the column it indexes,
/// row by row.
pub struct ColumnIndex {
    places: StringHashMap<Vec<usize>>,
    column: Ghost<Seq<Seq<char>>>,
}

impl View for ColumnIndex {
    type V = Seq<Seq<char>>;

    closed spec fn view(&self) -> Seq<Seq<char>> {
        self.column@
    }
}

impl ColumnIndex {
    /// Whether the index agrees with its column: each value that occurs
    /// has its list of places, and no other value has a list.
    pub closed spec fn well_formed(&self) -> bool {
        &&& forall|value: Seq<char>|
            self.places@.contains_key(value) ==> lists_places_of(
                (#[trigger] self.places@[value])@,
                self.column@,
                value,
            )
        &&& forall|q: int|
            0 <= q < self.column@.len() ==> self.places@.contains_key(#[trigger] self.column@[q])
    }

    /// The index of an empty column.
    pub fn new() -> (index: ColumnIndex)
        ensures
            index.well_formed(),
            index@ == Seq::<Seq<char>>::empty(),
    {
        ColumnIndex { places: StringHashMap::new(), column: Ghost(Seq::empty()) }
    }

    /// The first place at which the column holds `value`; `None` where it
    /// holds it nowhere.
    pub fn first(&self, value: &String) -> (place: Option<usize>)
        requires
            self.well_formed(),
        ensures
            match place {
                Some(p) => is_first_place_of(self@, value@, p as int),
                None => forall|q: int| 0 <= q < self@.len() ==> #[trigger] self@[q] != value@,
            },
    {
        match self.places.get(value.as_str()) {
            Some(places) => {
                let p = places[0];
                proof {
                    let list = places@;
                    assert(list[0] == p);
                    assert(lists(list, p as int));
                    assert forall|j: int| 0 <= j < p implies #[trigger] self@[j] != value@ by {
                        if self@[j] == value@ {
                            assert(lists(list, j));
                            let k = choose|k: int| 0 <= k < list.len() && #[trigger] list[k] == j;
                            if k > 0 {
                                assert(list[0] < list[k]);
                            }
                        }
                    }
                }
                Some(p)
            },
            None => None,
        }
    }

    /// The places at which the column holds `value`, in ascending order;
    /// `None` where it holds it nowhere.
    pub fn places<'a>(&'a self, value: &String) -> (places: Option<&'a Vec<usize>>)
        requires
            self.well_formed(),
        ensures
            match places {
                Some(list) => lists_places_of(list@, self@, value@),
                None => forall|q: int| 0 <= q < self@.len() ==> #[trigger] self@[q] != value@,
            },
    {
        self.places.get(value.as_str())
    }

    /// Takes note of a row added at the end of the column, at `place`.
    pub fn push(&mut self, value: &String, place: usize)
        requires
            old(self).well_formed(),
            place == old(self)@.len(),
        ensures
            final(self).well_formed(),
            final(self)@ == old(self)@.push(value@),
    {
        let ghost col0 = self.column@;
        let ghost m0 = self.places@;
        let ghost col1 = col0.push(value@);
        let mut list: Vec<usize> = match self.places.get(value.as_str()) {
            Some(known) => copy_places(known),
            None => Vec::new(),
        };
        let ghost known = list@;
        list.push(place);
        proof {
            let grown = list@;
            assert forall|q: int| lists(grown, q) <==> lists(known, q) || q == place by {
                if lists(known, q) {
                    let k = choose|k: int| 0 <= k < known.len() && #[trigger] known[k] == q;
                    assert(grown[k] == q);
                }
                if q == place {
                    assert(grown[known.len() as int] == q);
                }
                if lists(grown, q) {
                    let k = choose|k: int| 0 <= k < grown.len() && #[trigger] grown[k] == q;
                    if k < known.len() {
                        assert(known[k] == q);
                    }
                }
            }
            assert forall|q: int| lists(known, q) implies 0 <= q < col0.len() && col0[q] == value@ by {
                assert(m0.contains_key(value@));
            }
            assert forall|a: int, b: int| 0 <= a < b < grown.len() implies grown[a] < grown[b] by {
                if b == known.len() {
                    assert(lists(known, known[a] as int));
                } else {
                    assert(known[a] < known[b]);
                }
            }
            assert forall|q: int| lists(grown, q) <==> (0 <= q < col1.len() && col1[q] == value@) by {
                if 0 <= q < col0.len() && col0[q] == value@ {
                    assert(m0.contains_key(col0[q]));
                    assert(lists(known, q));
                }
            }
            assert(lists_places_of(grown, col1, value@));
        }
        self.places.insert(value.clone(), list);
        self.column = Ghost(col1);
        proof {
            let m1 = self.places@;
            assert forall|v: Seq<char>| m1.contains_key(v) implies lists_places_of(
                (#[trigger] m1[v])@,
                col1,
                v,
            ) by {
                if v != value@ {
                    assert(m0.contains_key(v));
                    let l = m0[v]@;
                    assert(lists_places_of(l, col0, v));
                    assert forall|q: int| #[trigger] lists(l, q) <==> (0 <= q < col1.len() && col1[q]
                        == v) by {
                    }
                }
            }
            assert forall|q: int| 0 <= q < col1.len() implies m1.contains_key(#[trigger] col1[q]) by {
                if q < col0.len() {
                    assert(m0.contains_key(col0[q]));
                }
            }
        }
    }

    /// Takes note of a row at `place` whose value changes from `from` to
    /// `to`.
    pub fn set(&mut self, place: usize, from: &String, to: &String)
        requires
            old(self).well_formed(),
            place < old(self)@.len(),
            old(self)@[place as int] == from@,
        ensures
            final(self).well_formed(),
            final(self)@ == old(self)@.update(place as int, to@),
    {
        let ghost col0 = self.column@;
        let ghost m0 = self.places@;
        let ghost col1 = col0.update(place as int, to@);
        if *from == *to {
            assert(col1 =~= col0);
            return ;
        }
        proof {
            assert(m0.contains_key(col0[place as int]));
        }
        let rest: Vec<usize> = match self.places.get(from.as_str()) {
            Some(known) => without(known, place),
            None => Vec::new(),
        };
        let ghost from_list = m0[from@]@;
        proof {
            assert(lists_places_of(from_list, col0, from@));
            assert forall|q: int| #[trigger] lists(rest@, q) <==> (0 <= q < col1.len() && col1[q]
                == from@) by {
                assert(lists(rest@, q) <==> lists(from_list, q) && q != place);
                assert(lists(from_list, q) <==> (0 <= q < col0.len() && col0[q] == from@));
            }
        }
        if rest.len() == 0 {
            self.places.remove(from.as_str());
        } else {
            self.places.insert(from.clone(), rest);
        }
        let ghost m1 = self.places@;
        let more: Vec<usize> = match self.places.get(to.as_str()) {
            Some(known) => {
                proof {
                    assert(m0.contains_key(to@) && m0[to@] == m1[to@]);
                    assert(lists_places_of(known@, col0, to@));
                    assert(lists(known@, place as int) <==> (0 <= place < col0.len()
                        && col0[place as int] == to@));
                }
                with_place(known, place)
            },
            None => {
                let mut single: Vec<usize> = Vec::new();
                single.push(place);
                proof {
                    assert(single@[0] == place);
                    assert forall|q: int| #[trigger] lists(single@, q) <==> q == place by {
                        if q == place {
                            assert(single@[0] == q);
                        }
                    }
                }
                single
            },
        };
        proof {
            assert forall|q: int| #[trigger] lists(more@, q) <==> (0 <= q < col1.len() && col1[q]
                == to@) by {
                if m1.contains_key(to@) {
                    let known = m1[to@]@;
                    assert(m0.contains_key(to@) && m0[to@] == m1[to@]);
                    assert(lists_places_of(known, col0, to@));
                    assert(lists(more@, q) <==> lists(known, q) || q == place);
                    assert(lists(known, q) <==> (0 <= q < col0.len() && col0[q] == to@));
                } else {
                    assert(lists(more@, q) <==> q == place);
                    if 0 <= q < col0.len() && col0[q] == to@ {
                        assert(m0.contains_key(col0[q]));
                    }
                }
            }
            assert(lists_places_of(more@, col1, to@));
        }
        self.places.insert(to.clone(), more);
        self.column = Ghost(col1);
        proof {
            let m2 = self.places@;
            assert forall|v: Seq<char>| m2.contains_key(v) implies lists_places_of(
                (#[trigger] m2[v])@,
                col1,
                v,
            ) by {
                if v == to@ {
                } else if v == from@ {
                    assert(m1.contains_key(v));
                    assert(m2[v]@ == rest@);
                } else {
                    assert(m0.contains_key(v) && m0[v] == m2[v]);
                    let l = m0[v]@;
                    assert(lists_places_of(l, col0, v));
                    assert forall|q: int| #[trigger] lists(l, q) <==> (0 <= q < col1.len() && col1[q]
                        == v) by {
                    }
                }
            }
            assert forall|q: int| 0 <= q < col1.len() implies m2.contains_key(#[trigger] col1[q]) by {
                if q != place {
                    assert(m0.contains_key(col0[q]));
                    if col0[q] == from@ {
                        assert(lists(from_list, q));
                        assert(lists(rest@, q));
                    }
                }
            }
        }
    }
}

} // verus!
