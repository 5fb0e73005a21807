//! The table of exchange rates: one rate for each currency code, kept in the order
//! of the codes. The table does not look into a rate; `R` is whatever the caller
//! computes with.

use vstd::prelude::*;
use vstd::utf8::*;

verus! {

/// `a` and `b` agree on their first `k` bytes, and there `a` ends or holds the
/// smaller byte.
pub open spec fn splits_at(a: Seq<u8>, b: Seq<u8>, k: int) -> bool {
    &&& 0 <= k <= a.len()
    &&& k < b.len()
    &&& forall|i: int| 0 <= i < k ==> a[i] == b[i]
    &&& (k < a.len() ==> a[k] < b[k])
}

/// The strict lexicographic order on byte strings, which is the order of strings.
pub open spec fn precedes(a: Seq<u8>, b: Seq<u8>) -> bool {
    exists|k: int| splits_at(a, b, k)
}

/// The bytes by which a code is ordered: its UTF-8 encoding.
pub open spec fn key(code: Seq<char>) -> Seq<u8> {
    encode_utf8(code)
}

/// The codes stand in strictly ascending order, so none occurs twice.
pub open spec fn ascending(codes: Seq<Seq<char>>) -> bool {
    forall|i: int, j: int|
        0 <= i < j < codes.len() ==> precedes(key(#[trigger] codes[i]), key(#[trigger] codes[j]))
}

/// No byte string precedes itself.
pub proof fn lemma_precedes_irreflexive(a: Seq<u8>)
    ensures
        !precedes(a, a),
{
}

/// Of two byte strings at most one precedes the other.
pub proof fn lemma_precedes_asymmetric(a: Seq<u8>, b: Seq<u8>)
    requires
        precedes(a, b),
    ensures
        !precedes(b, a),
{
    if precedes(b, a) {
        let k1 = choose|k: int| splits_at(a, b, k);
        let k2 = choose|k: int| splits_at(b, a, k);
        if k1 < k2 {
            assert(b[k1] == a[k1]);
        } else if k2 < k1 {
            assert(a[k2] == b[k2]);
        }
    }
}

/// The order is transitive.
pub proof fn lemma_precedes_transitive(a: Seq<u8>, b: Seq<u8>, c: Seq<u8>)
    requires
        precedes(a, b),
        precedes(b, c),
    ensures
        precedes(a, c),
{
    let k1 = choose|k: int| splits_at(a, b, k);
    let k2 = choose|k: int| splits_at(b, c, k);
    let k = if k1 <= k2 {
        k1
    } else {
        k2
    };
    assert forall|i: int| 0 <= i < k implies a[i] == c[i] by {
        assert(a[i] == b[i]);
        assert(b[i] == c[i]);
    }
    if k < a.len() {
        if k1 < k2 {
            assert(b[k1] == c[k1]);
        } else if k2 < k1 {
            assert(a[k2] == b[k2]);
        }
    }
    assert(splits_at(a, c, k));
}

/// Two codes with the same key are the same code.
pub proof fn lemma_key_injective(a: Seq<char>, b: Seq<char>)
    requires
        key(a) == key(b),
    ensures
        a == b,
{
    encode_utf8_decode_utf8(a);
    encode_utf8_decode_utf8(b);
}

/// In an ascending list, a code stands at one place only.
pub proof fn lemma_ascending_distinct(codes: Seq<Seq<char>>, i: int, j: int)
    requires
        ascending(codes),
        0 <= i < codes.len(),
        0 <= j < codes.len(),
        codes[i] == codes[j],
    ensures
        i == j,
{
    if i < j {
        assert(precedes(key(codes[i]), key(codes[j])));
        lemma_precedes_irreflexive(key(codes[i]));
    } else if j < i {
        assert(precedes(key(codes[j]), key(codes[i])));
        lemma_precedes_irreflexive(key(codes[i]));
    }
}

/// Where one byte string stands with respect to another.
enum Place {
    Before,
    Same,
    After,
}

/// Compares two byte strings lexicographically.
fn place(a: &[u8], b: &[u8]) -> (r: Place)
    ensures
        r is Before ==> precedes(a@, b@),
        r is Same ==> a@ == b@,
        r is After ==> precedes(b@, a@),
{
    let mut i: usize = 0;
    loop
        invariant
            i <= a.len(),
            i <= b.len(),
            forall|j: int| 0 <= j < i ==> a@[j] == b@[j],
        decreases a.len() - i,
    {
        if i == a.len() {
            if i == b.len() {
                assert(a@ =~= b@);
                return Place::Same;
            }
            assert(splits_at(a@, b@, i as int));
            return Place::Before;
        }
        if i == b.len() {
            assert(splits_at(b@, a@, i as int));
            return Place::After;
        }
        if a[i] < b[i] {
            assert(splits_at(a@, b@, i as int));
            return Place::Before;
        }
        if a[i] > b[i] {
            assert(splits_at(b@, a@, i as int));
            return Place::After;
        }
        i = i + 1;
    }
}

/// A table of rates by currency code.
#[derive(Debug)]
pub struct RateTable<R> {
    codes: Vec<String>,
    rates: Vec<R>,
}

impl<R> View for RateTable<R> {
    type V = Map<Seq<char>, R>;

    /// The rate of each code that the table lists.
    closed spec fn view(&self) -> Map<Seq<char>, R> {
        Map::new(
            |code: Seq<char>| self.listing().contains(code),
            |code: Seq<char>| self.rates@[self.listing().index_of(code)],
        )
    }
}

impl<R> RateTable<R> {
    /// The codes of the table, in the order in which it lists them.
    pub closed spec fn listing(&self) -> Seq<Seq<char>> {
        Seq::new(self.codes@.len(), |i: int| self.codes@[i]@)
    }

    /// The rates of the table, each at the place of its code in the listing.
    pub closed spec fn quotes(&self) -> Seq<R> {
        self.rates@
    }

    /// What holds of every table: each code has its rate, and the codes ascend.
    pub closed spec fn wf(&self) -> bool {
        &&& self.codes@.len() == self.rates@.len()
        &&& ascending(self.listing())
    }

    /// The listing and the view tell the same: the listed codes are the codes of
    /// the view, each with the rate at its place, and they ascend.
    pub proof fn lemma_listing(&self)
        requires
            self.wf(),
        ensures
            self.listing().len() == self.quotes().len(),
            ascending(self.listing()),
            forall|code: Seq<char>| self@.dom().contains(code) <==> self.listing().contains(code),
            forall|i: int|
                0 <= i < self.listing().len() ==> self@.dom().contains(#[trigger] self.listing()[i])
                    && self@[self.listing()[i]] == self.quotes()[i],
    {
        assert forall|i: int| 0 <= i < self.listing().len() implies self@.dom().contains(
            #[trigger] self.listing()[i],
        ) && self@[self.listing()[i]] == self.quotes()[i] by {
            let code = self.listing()[i];
            assert(self.listing().contains(code));
            let j = self.listing().index_of(code);
            lemma_ascending_distinct(self.listing(), i, j);
        }
    }

    /// An empty table.
    pub fn new() -> (t: Self)
        ensures
            t.wf(),
            t@ == Map::<Seq<char>, R>::empty(),
            t.listing().len() == 0,
    {
        let t = RateTable { codes: Vec::new(), rates: Vec::new() };
        assert(t@ =~= Map::<Seq<char>, R>::empty());
        t
    }

    /// The number of codes in the table.
    pub fn len(&self) -> (n: usize)
        requires
            self.wf(),
        ensures
            n == self.listing().len(),
    {
        self.codes.len()
    }

    /// The code and the rate at place `i` of the listing, if there is such a place.
    pub fn entry(&self, i: usize) -> (r: Option<(&str, &R)>)
        requires
            self.wf(),
        ensures
            i >= self.listing().len() ==> r is None,
            i < self.listing().len() ==> (r matches Some((code, rate)) && code@
                == self.listing()[i as int] && *rate == self.quotes()[i as int]),
    {
        if i < self.codes.len() {
            Some((self.codes[i].as_str(), &self.rates[i]))
        } else {
            None
        }
    }

    /// The rate of `code`, if the table lists it.
    pub fn get(&self, code: &str) -> (r: Option<&R>)
        requires
            self.wf(),
        ensures
            self@.dom().contains(code@) ==> r == Some(&self@[code@]),
            !self@.dom().contains(code@) ==> r is None,
    {
        let wanted = code.as_bytes();
        let n = self.codes.len();
        let mut i: usize = 0;
        while i < n
            invariant
                self.wf(),
                n == self.codes@.len(),
                i <= n,
                wanted@ == key(code@),
                forall|j: int| 0 <= j < i ==> precedes(key(#[trigger] self.listing()[j]), key(code@)),
            decreases n - i,
        {
            match place(self.codes[i].as_str().as_bytes(), wanted) {
                Place::Before => {},
                Place::Same => {
                    proof {
                        lemma_key_injective(self.listing()[i as int], code@);
                        self.lemma_listing();
                    }
                    return Some(&self.rates[i]);
                },
                Place::After => {
                    proof {
                        self.lemma_absent(code@, i as int);
                    }
                    return None;
                },
            }
            i = i + 1;
        }
        proof {
            self.lemma_absent(code@, n as int);
        }
        None
    }

    /// A code that stands after every code before place `i`, and before the code at
    /// place `i` where there is one, is not in the table.
    proof fn lemma_absent(&self, code: Seq<char>, i: int)
        requires
            self.wf(),
            0 <= i <= self.listing().len(),
            forall|j: int| 0 <= j < i ==> precedes(key(#[trigger] self.listing()[j]), key(code)),
            i < self.listing().len() ==> precedes(key(code), key(self.listing()[i])),
        ensures
            !self.listing().contains(code),
            !self@.dom().contains(code),
    {
        if self.listing().contains(code) {
            let j = choose|j: int| 0 <= j < self.listing().len() && self.listing()[j] == code;
            lemma_precedes_irreflexive(key(code));
            if j >= i {
                if j > i {
                    assert(precedes(key(self.listing()[i]), key(self.listing()[j])));
                    lemma_precedes_asymmetric(key(code), key(self.listing()[i]));
                }
            }
        }
    }

    /// Gives `code` the rate `rate`, whether or not the table listed it.
    pub fn insert(&mut self, code: String, rate: R)
        requires
            old(self).wf(),
        ensures
            final(self).wf(),
            final(self)@ == old(self)@.insert(code@, rate),
    {
        let n = self.codes.len();
        let mut i: usize = 0;
        let mut found = false;
        while i < n
            invariant_except_break
                !found,
            invariant
                self == old(self),
                self.wf(),
                n == self.codes@.len(),
                i <= n,
                forall|j: int| 0 <= j < i ==> precedes(key(#[trigger] self.listing()[j]), key(code@)),
            ensures
                found ==> i < n && self.listing()[i as int] == code@,
                !found && i < n ==> precedes(key(code@), key(self.listing()[i as int])),
            decreases n - i,
        {
            match place(self.codes[i].as_str().as_bytes(), code.as_str().as_bytes()) {
                Place::Before => {},
                Place::Same => {
                    proof {
                        lemma_key_injective(self.listing()[i as int], code@);
                    }
                    found = true;
                    break ;
                },
                Place::After => {
                    break ;
                },
            }
            i = i + 1;
        }
        let ghost before = *self;
        if found {
            self.rates.set(i, rate);
            proof {
                assert(self.listing() =~= before.listing());
                before.lemma_listing();
                self.lemma_listing();
                assert forall|c: Seq<char>| self@.dom().contains(c) implies #[trigger] self@[c]
                    == before@.insert(code@, rate)[c] by {
                    let j = self.listing().index_of(c);
                    assert(self.listing()[j] == c);
                    if j != i as int {
                        assert(self.quotes()[j] == before.quotes()[j]);
                    }
                }
                assert(self@ =~= before@.insert(code@, rate));
            }
        } else {
            self.codes.insert(i, code);
            self.rates.insert(i, rate);
            proof {
                let p = i as int;
                assert forall|a: int, b: int| 0 <= a < b < self.listing().len() implies precedes(
                    key(#[trigger] self.listing()[a]),
                    key(#[trigger] self.listing()[b]),
                ) by {
                    let oa = if a < p {
                        a
                    } else {
                        a - 1
                    };
                    let ob = if b < p {
                        b
                    } else {
                        b - 1
                    };
                    if a == p {
                        assert(self.listing()[b] == before.listing()[ob]);
                        if ob > p {
                            assert(precedes(key(before.listing()[p]), key(before.listing()[ob])));
                            lemma_precedes_transitive(
                                key(code@),
                                key(before.listing()[p]),
                                key(before.listing()[ob]),
                            );
                        }
                    } else if b == p {
                        assert(self.listing()[a] == before.listing()[oa]);
                    } else {
                        assert(self.listing()[a] == before.listing()[oa]);
                        assert(self.listing()[b] == before.listing()[ob]);
                    }
                }
                before.lemma_listing();
                self.lemma_listing();
                before.lemma_absent(code@, p);
                assert(self.listing()[p] == code@);
                assert forall|c: Seq<char>| self@.dom().contains(c) <==> before@.insert(
                    code@,
                    rate,
                ).dom().contains(c) by {
                    if self.listing().contains(c) {
                        let j = self.listing().index_of(c);
                        assert(self.listing()[j] == c);
                        if j != p {
                            let oj = if j < p {
                                j
                            } else {
                                j - 1
                            };
                            assert(before.listing()[oj] == c);
                        }
                    }
                    if before.listing().contains(c) {
                        let oj = before.listing().index_of(c);
                        assert(before.listing()[oj] == c);
                        let j = if oj < p {
                            oj
                        } else {
                            oj + 1
                        };
                        assert(self.listing()[j] == c);
                    }
                }
                assert forall|c: Seq<char>| self@.dom().contains(c) implies #[trigger] self@[c]
                    == before@.insert(code@, rate)[c] by {
                    let j = self.listing().index_of(c);
                    assert(self.listing()[j] == c);
                    if j != p {
                        let oj = if j < p {
                            j
                        } else {
                            j - 1
                        };
                        assert(before.listing()[oj] == c);
                        assert(self.quotes()[j] == before.quotes()[oj]);
                    }
                }
                assert(self@ =~= before@.insert(code@, rate));
            }
        }
    }
}

} // verus!
