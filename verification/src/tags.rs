//! Flat tag records and the target-tag table: a name-keyed mapping from tag
//! names to optional replacement values, modelled as a `Map`.

use vstd::prelude::*;
use crate::text::str_eq;

verus! {

/// One extracted or injected tag: a name and an optional text value.
#[derive(Debug, PartialEq, Eq, Clone)]
pub struct Tag {
    pub name: String,
    pub value: Option<String>,
}

/// Mathematical model of a tag record.
pub ghost struct TagS {
    pub name: Seq<char>,
    pub value: Option<Seq<char>>,
}

impl View for Tag {
    type V = TagS;

    open spec fn view(&self) -> TagS {
        TagS { name: self.name@, value: self.value.deep_view() }
    }
}

impl DeepView for Tag {
    type V = TagS;

    open spec fn deep_view(&self) -> TagS {
        self.view()
    }
}

impl Tag {
    /// Build a tag record from its name and optional value.
    pub fn new(name: &str, value: Option<&str>) -> (r: Self)
        ensures
            r@.name == name@,
            r@.value == (match value {
                Some(v) => Some(v@),
                None => None::<Seq<char>>,
            }),
    {
        Self {
            name: name.to_owned(),
            value: match value {
                Some(v) => Some(v.to_owned()),
                None => None,
            },
        }
    }
}

/// A name occurs among the entries.
spec fn has_name(s: Seq<Tag>, k: Seq<char>) -> bool {
    exists|i: int| 0 <= i < s.len() && s[i].name@ == k
}

/// The index of the entry carrying a name (unique under the table invariant).
spec fn entry_index(s: Seq<Tag>, k: Seq<char>) -> int {
    choose|i: int| 0 <= i < s.len() && s[i].name@ == k
}

/// The target-tag table: tag name to optional replacement value.  Keys are
/// unique; inserting an existing key overwrites its value.
#[derive(Debug, PartialEq, Eq)]
pub struct Tags {
    entries: Vec<Tag>,
}

impl Tags {
    #[verifier::type_invariant]
    spec fn wf(self) -> bool {
        forall|i: int, j: int|
            0 <= i < j < self.entries@.len() ==> self.entries@[i].name@ != self.entries@[j].name@
    }
}

impl View for Tags {
    type V = Map<Seq<char>, Option<Seq<char>>>;

    closed spec fn view(&self) -> Map<Seq<char>, Option<Seq<char>>> {
        Map::new(
            |k: Seq<char>| has_name(self.entries@, k),
            |k: Seq<char>| self.entries@[entry_index(self.entries@, k)].value.deep_view(),
        )
    }
}

/// Locate the first entry carrying `key`, if any.
fn find_entry(entries: &Vec<Tag>, key: &str) -> (r: Option<usize>)
    ensures
        match r {
            Some(i) => i < entries@.len() && entries@[i as int].name@ == key@,
            None => forall|j: int| 0 <= j < entries@.len() ==> entries@[j].name@ != key@,
        },
{
    let n = entries.len();
    let mut i: usize = 0;
    while i < n
        invariant
            n == entries@.len(),
            i <= n,
            forall|j: int| 0 <= j < i ==> entries@[j].name@ != key@,
        decreases n - i,
    {
        if str_eq(entries[i].name.as_str(), key) {
            return Some(i);
        }
        i += 1;
    }
    None
}

impl Default for Tags {
    fn default() -> (r: Self)
        ensures
            r@ == Map::<Seq<char>, Option<Seq<char>>>::empty(),
    {
        Self::new()
    }
}

impl Tags {
    /// An empty table.
    pub fn new() -> (r: Self)
        ensures
            r@ == Map::<Seq<char>, Option<Seq<char>>>::empty(),
    {
        let r = Tags { entries: Vec::new() };
        proof {
            assert(r@ =~= Map::<Seq<char>, Option<Seq<char>>>::empty());
        }
        r
    }

    /// Look a name up; `None` when the table has no entry for it.
    pub fn get(&self, target_key: &str) -> (r: Option<&Option<String>>)
        ensures
            self@.contains_key(target_key@) ==> (match r {
                Some(v) => v.deep_view() == self@[target_key@],
                None => false,
            }),
            !self@.contains_key(target_key@) ==> r is None,
    {
        proof {
            use_type_invariant(&*self);
        }
        match find_entry(&self.entries, target_key) {
            Some(i) => {
                proof {
                    let s = self.entries@;
                    assert(has_name(s, target_key@));
                    let j = entry_index(s, target_key@);
                    assert(s[j].name@ == target_key@);
                    assert(j == i as int);
                }
                Some(&self.entries[i].value)
            },
            None => {
                proof {
                    assert(!has_name(self.entries@, target_key@));
                }
                None
            },
        }
    }

    /// Insert a name/value pair, overwriting the value of an existing entry.
    pub fn insert(&mut self, target_key: &str, target_value: Option<&str>)
        ensures
            final(self)@ == old(self)@.insert(
                target_key@,
                match target_value {
                    Some(v) => Some(v@),
                    None => None::<Seq<char>>,
                },
            ),
    {
        proof {
            use_type_invariant(&*self);
        }
        let ghost s0 = self.entries@;
        let ghost vv = match target_value {
            Some(v) => Some(v@),
            None => None::<Seq<char>>,
        };
        let val: Option<String> = match target_value {
            Some(v) => Some(v.to_owned()),
            None => None,
        };
        let found = find_entry(&self.entries, target_key);
        let mut v: Vec<Tag> = Vec::new();
        core::mem::swap(&mut v, &mut self.entries);
        match found {
            Some(i) => {
                let mut t = v.remove(i);
                t.value = val;
                v.insert(i, t);
                let ghost s1 = v@;
                proof {
                    assert(s1 =~= s0.update(i as int, t));
                    assert forall|a: int, b: int|
                        0 <= a < b < s1.len() implies s1[a].name@ != s1[b].name@ by {
                        assert(s1[a].name@ == s0[a].name@);
                        assert(s1[b].name@ == s0[b].name@);
                    }
                }
                self.entries = v;
                proof {
                    assert forall|k2: Seq<char>| #[trigger] has_name(s1, k2) == has_name(
                        s0,
                        k2,
                    ) by {
                        if has_name(s1, k2) {
                            let w = choose|w: int| 0 <= w < s1.len() && s1[w].name@ == k2;
                            assert(s0[w].name@ == k2);
                        }
                        if has_name(s0, k2) {
                            let w = choose|w: int| 0 <= w < s0.len() && s0[w].name@ == k2;
                            assert(s1[w].name@ == k2);
                        }
                    }
                    assert(has_name(s0, target_key@)) by {
                        assert(s0[i as int].name@ == target_key@);
                    }
                    assert forall|k2: Seq<char>| has_name(s1, k2) implies s1[entry_index(s1, k2)]
                        .value.deep_view() == old(self)@.insert(target_key@, vv)[k2] by {
                        let j = entry_index(s1, k2);
                        assert(0 <= j < s1.len() && s1[j].name@ == k2);
                        if k2 == target_key@ {
                            if j != i as int {
                                assert(s1[j].name@ == s0[j].name@);
                                assert(s0[i as int].name@ == target_key@);
                                assert(s1[i as int].name@ == target_key@);
                                assert(false);
                            }
                            assert(s1[j].value.deep_view() == vv);
                        } else {
                            assert(j != i as int);
                            assert(s1[j] == s0[j]);
                            let j0 = entry_index(s0, k2);
                            assert(0 <= j0 < s0.len() && s0[j0].name@ == k2);
                            if j != j0 {
                                assert(s1[j0].name@ == s0[j0].name@);
                                assert(s1[j].name@ == s1[j0].name@);
                                assert(false);
                            }
                        }
                    }
                    assert(self@ =~= old(self)@.insert(target_key@, vv));
                }
            },
            None => {
                v.push(Tag { name: target_key.to_owned(), value: val });
                let ghost s1 = v@;
                proof {
                    assert forall|a: int, b: int|
                        0 <= a < b < s1.len() implies s1[a].name@ != s1[b].name@ by {
                        if b < s1.len() - 1 {
                            assert(s1[a] == s0[a]);
                            assert(s1[b] == s0[b]);
                        } else {
                            assert(s1[a] == s0[a]);
                            assert(s1[b].name@ == target_key@);
                        }
                    }
                }
                self.entries = v;
                proof {
                    assert forall|k2: Seq<char>| #[trigger] has_name(s1, k2) implies has_name(
                        s0,
                        k2,
                    ) || k2 == target_key@ by {
                        let w = choose|w: int| 0 <= w < s1.len() && s1[w].name@ == k2;
                        if w < s0.len() {
                            assert(s1[w] == s0[w]);
                        }
                    }
                    assert forall|k2: Seq<char>| has_name(s0, k2) implies #[trigger] has_name(
                        s1,
                        k2,
                    ) by {
                        let w = choose|w: int| 0 <= w < s0.len() && s0[w].name@ == k2;
                        assert(s1[w].name@ == k2);
                    }
                    assert(has_name(s1, target_key@)) by {
                        assert(s1[s1.len() - 1].name@ == target_key@);
                    }
                    assert forall|k2: Seq<char>| has_name(s1, k2) implies s1[entry_index(s1, k2)]
                        .value.deep_view() == old(self)@.insert(
                        target_key@,
                        match target_value {
                            Some(v) => Some(v@),
                            None => None::<Seq<char>>,
                        },
                    )[k2] by {
                        let j = entry_index(s1, k2);
                        assert(0 <= j < s1.len() && s1[j].name@ == k2);
                        if k2 == target_key@ {
                            if j < s0.len() {
                                assert(s0[j].name@ == k2);
                                assert(!has_name(s0, target_key@));
                            }
                            assert(j == s0.len());
                        } else {
                            assert(j < s0.len());
                            assert(s1[j] == s0[j]);
                            let j0 = entry_index(s0, k2);
                            assert(0 <= j0 < s0.len() && s0[j0].name@ == k2);
                            assert(s1[j0] == s0[j0]);
                            if j != j0 {
                                assert(s1[j].name@ == s1[j0].name@);
                                assert(false);
                            }
                        }
                    }
                    assert(self@ =~= old(self)@.insert(
                        target_key@,
                        match target_value {
                            Some(v) => Some(v@),
                            None => None::<Seq<char>>,
                        },
                    ));
                }
            },
        }
    }

    /// Remove the entry carrying a name, if any.
    pub fn remove(&mut self, target_key: &str)
        ensures
            final(self)@ == old(self)@.remove(target_key@),
    {
        proof {
            use_type_invariant(&*self);
        }
        let ghost s0 = self.entries@;
        let found = find_entry(&self.entries, target_key);
        match found {
            Some(i) => {
                let mut v: Vec<Tag> = Vec::new();
                core::mem::swap(&mut v, &mut self.entries);
                let _ = v.remove(i);
                let ghost s1 = v@;
                proof {
                    assert forall|a: int, b: int|
                        0 <= a < b < s1.len() implies s1[a].name@ != s1[b].name@ by {
                        assert(s1[a] == if a < i as int {
                            s0[a]
                        } else {
                            s0[a + 1]
                        });
                        assert(s1[b] == if b < i as int {
                            s0[b]
                        } else {
                            s0[b + 1]
                        });
                    }
                }
                self.entries = v;
                proof {
                    assert forall|k2: Seq<char>| #[trigger] has_name(s1, k2) implies has_name(
                        s0,
                        k2,
                    ) && k2 != target_key@ by {
                        let w = choose|w: int| 0 <= w < s1.len() && s1[w].name@ == k2;
                        let w0: int = if w < i as int {
                            w
                        } else {
                            w + 1
                        };
                        assert(s1[w] == s0[w0]);
                        assert(s0[w0].name@ == k2);
                        if k2 == target_key@ {
                            assert(s0[i as int].name@ == target_key@);
                            assert(w0 != i as int);
                            assert(false);
                        }
                    }
                    assert forall|k2: Seq<char>|
                        has_name(s0, k2) && k2 != target_key@ implies #[trigger] has_name(
                        s1,
                        k2,
                    ) by {
                        let w = choose|w: int| 0 <= w < s0.len() && s0[w].name@ == k2;
                        assert(w != i as int);
                        let w1: int = if w < i as int {
                            w
                        } else {
                            w - 1
                        };
                        assert(s1[w1] == s0[w]);
                    }
                    assert forall|k2: Seq<char>| has_name(s1, k2) implies s1[entry_index(s1, k2)]
                        .value.deep_view() == s0[entry_index(s0, k2)].value.deep_view() by {
                        let j = entry_index(s1, k2);
                        assert(0 <= j < s1.len() && s1[j].name@ == k2);
                        let j0: int = if j < i as int {
                            j
                        } else {
                            j + 1
                        };
                        assert(s1[j] == s0[j0]);
                        let w0 = entry_index(s0, k2);
                        assert(0 <= w0 < s0.len() && s0[w0].name@ == k2);
                        if w0 != j0 {
                            assert(s0[w0].name@ == s0[j0].name@);
                            assert(false);
                        }
                    }
                    assert(self@ =~= old(self)@.remove(target_key@));
                }
            },
            None => {
                proof {
                    assert(!has_name(s0, target_key@));
                    assert(self@ =~= old(self)@.remove(target_key@));
                }
            },
        }
    }

    /// Add the target tags that processing an eBilanz always requires.
    pub fn add_required_tags(&mut self)
        ensures
            final(self)@ == old(self)@.insert("Verfahren"@, Some("ElsterBilanz"@)).insert(
                "DatenArt"@,
                Some("Bilanz"@),
            ).insert("Vorgang"@, Some("send-Auth"@)).insert("HerstellerID"@, Some("00000"@)).insert(
                "Kompression"@,
                Some("GZIP"@),
            ).insert("Verschluesselung"@, Some("CMSEncryptedData"@)).insert(
                "VersionClient"@,
                Some("1"@),
            ).insert("ProduktName"@, Some("Taxel"@)).insert("ProduktVersion"@, Some("0.1.0"@)).insert(
                "Testmerker"@,
                Some("700000004"@),
            ),
    {
        self.insert("Verfahren", Some("ElsterBilanz"));
        self.insert("DatenArt", Some("Bilanz"));
        self.insert("Vorgang", Some("send-Auth"));
        self.insert("HerstellerID", Some("00000"));
        self.insert("Kompression", Some("GZIP"));
        self.insert("Verschluesselung", Some("CMSEncryptedData"));
        self.insert("VersionClient", Some("1"));
        self.insert("ProduktName", Some("Taxel"));
        self.insert("ProduktVersion", Some("0.1.0"));
        self.insert("Testmerker", Some("700000004"));
    }

    /// Remove target tags that the pipeline does not support filling in:
    /// dropdown and multiple-selection fields.
    pub fn remove_unsupported_tags(&mut self)
        ensures
            final(self)@ == old(self)@.remove(
                "de-gcd:genInfo.report.id.reportType.reportType.JA"@,
            ).remove("de-gcd:genInfo.report.id.reportStatus.reportStatus.E"@).remove(
                "de-gcd:genInfo.report.id.revisionStatus.revisionStatus.E"@,
            ).remove("de-gcd:genInfo.report.id.reportElement.reportElements.B"@).remove(
                "de-gcd:genInfo.report.id.reportElement.reportElements.GuVMicroBilG"@,
            ).remove("de-gcd:genInfo.report.id.reportElement.reportElements.BVV"@).remove(
                "de-gcd:genInfo.report.id.statementType.statementType.E"@,
            ).remove("de-gcd:genInfo.report.id.incomeStatementendswithBalProfit "@).remove(
                "de-gcd:genInfo.report.id.accountingStandard.accountingStandard.AO"@,
            ).remove(
                "de-gcd:genInfo.report.id.incomeStatementFormat.incomeStatementFormat.GKV"@,
            ).remove("de-gcd:genInfo.report.id.consolidationRange.consolidationRange.EA"@).remove(
                "de-gcd:genInfo.company.id.incomeClassification.trade"@,
            ).remove("de-gcd:genInfo.company.id.shareholder.legalStatus.legalStatus.KOER"@),
    {
        self.remove("de-gcd:genInfo.report.id.reportType.reportType.JA");
        self.remove("de-gcd:genInfo.report.id.reportStatus.reportStatus.E");
        self.remove("de-gcd:genInfo.report.id.revisionStatus.revisionStatus.E");
        self.remove("de-gcd:genInfo.report.id.reportElement.reportElements.B");
        self.remove("de-gcd:genInfo.report.id.reportElement.reportElements.GuVMicroBilG");
        self.remove("de-gcd:genInfo.report.id.reportElement.reportElements.BVV");
        self.remove("de-gcd:genInfo.report.id.statementType.statementType.E");
        self.remove("de-gcd:genInfo.report.id.incomeStatementendswithBalProfit ");
        self.remove("de-gcd:genInfo.report.id.accountingStandard.accountingStandard.AO");
        self.remove("de-gcd:genInfo.report.id.incomeStatementFormat.incomeStatementFormat.GKV");
        self.remove("de-gcd:genInfo.report.id.consolidationRange.consolidationRange.EA");
        self.remove("de-gcd:genInfo.company.id.incomeClassification.trade");
        self.remove("de-gcd:genInfo.company.id.shareholder.legalStatus.legalStatus.KOER");
    }
}

} // verus!
