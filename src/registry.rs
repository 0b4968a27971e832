use vstd::prelude::*;

verus! {

/// The accessor type names defined so far in a generation session. Names are
/// only ever added; each is held once. The names sit in a `Vec` and membership
/// is decided by comparing characters: vstd specifies `HashSet` lookups only
/// for keys with a proven hash model (integers, `bool`), which `String` is not,
/// so a `HashSet<String>` would leave `contains` without a provable meaning.
pub struct NameRegistry {
    names: Vec<String>,
}

/// The names reserved from the start: the accessors of `Ok`, `Err`, `Some` and
/// `None`, which the optic vocabulary defines itself.
pub open spec fn reserved_names() -> Set<Seq<char>> {
    set![seq!['_', 'O', 'k'], seq!['_', 'E', 'r', 'r'], seq!['_', 'S', 'o', 'm', 'e'], seq!['_', 'N', 'o', 'n', 'e']]
}

impl View for NameRegistry {
    type V = Set<Seq<char>>;

    closed spec fn view(&self) -> Set<Seq<char>> {
        self.names@.map_values(|s: String| s@).to_set()
    }
}

/// Whether two strings hold the same characters.
pub fn same_text(a: &str, b: &str) -> (r: bool)
    ensures
        r == (a@ == b@),
{
    let n = a.unicode_len();
    if n != b.unicode_len() {
        return false;
    }
    let mut i: usize = 0;
    while i < n
        invariant
            n == a@.len() == b@.len(),
            i <= n,
            forall|j: int| 0 <= j < i ==> a@[j] == b@[j],
        decreases n - i,
    {
        if a.get_char(i) != b.get_char(i) {
            return false;
        }
        i = i + 1;
    }
    proof {
        assert(a@ =~= b@);
    }
    true
}

impl NameRegistry {
    /// A registry that holds the reserved names only.
    pub fn new() -> (r: NameRegistry)
        ensures
            r@ == reserved_names(),
    {
        let mut names: Vec<String> = Vec::new();
        names.push(String::from_str("_Ok"));
        names.push(String::from_str("_Err"));
        names.push(String::from_str("_Some"));
        names.push(String::from_str("_None"));
        let r = NameRegistry { names };
        proof {
            reveal_strlit("_Ok");
            reveal_strlit("_Err");
            reveal_strlit("_Some");
            reveal_strlit("_None");
            let s = r.names@.map_values(|s: String| s@);
            assert(s[0] =~= seq!['_', 'O', 'k']);
            assert(s[1] =~= seq!['_', 'E', 'r', 'r']);
            assert(s[2] =~= seq!['_', 'S', 'o', 'm', 'e']);
            assert(s[3] =~= seq!['_', 'N', 'o', 'n', 'e']);
            assert(s =~= seq![seq!['_', 'O', 'k'], seq!['_', 'E', 'r', 'r'], seq!['_', 'S', 'o', 'm', 'e'], seq!['_', 'N', 'o', 'n', 'e']]);
            assert(s.to_set() =~= reserved_names()) by {
                assert forall|x: Seq<char>| reserved_names().contains(x) implies s.to_set().contains(x) by {
                    if x == seq!['_', 'O', 'k'] { assert(s[0] == x); }
                    else if x == seq!['_', 'E', 'r', 'r'] { assert(s[1] == x); }
                    else if x == seq!['_', 'S', 'o', 'm', 'e'] { assert(s[2] == x); }
                    else { assert(s[3] == x); }
                }
            }
        }
        r
    }

    /// Whether `name` has been defined (or is reserved).
    pub fn contains(&self, name: &str) -> (r: bool)
        ensures
            r == self@.contains(name@),
    {
        let ghost s = self.names@.map_values(|s: String| s@);
        let mut i: usize = 0;
        while i < self.names.len()
            invariant
                i <= self.names@.len(),
                s == self.names@.map_values(|s: String| s@),
                forall|j: int| 0 <= j < i ==> s[j] != name@,
            decreases self.names@.len() - i,
        {
            if same_text(self.names[i].as_str(), name) {
                proof {
                    assert(s[i as int] == name@);
                }
                return true;
            }
            i = i + 1;
        }
        proof {
            if s.to_set().contains(name@) {
                let j = choose|j: int| 0 <= j < s.len() && s[j] == name@;
                assert(s[j] == name@);
            }
        }
        false
    }

    /// Records `name` as defined; recording it again changes nothing.
    pub fn reserve(&mut self, name: &str)
        ensures
            final(self)@ == old(self)@.insert(name@),
    {
        if !self.contains(name) {
            let ghost s0 = self.names@.map_values(|s: String| s@);
            self.names.push(name.to_owned());
            proof {
                let s1 = self.names@.map_values(|s: String| s@);
                assert(s1 =~= s0.push(name@));
                assert(s1.to_set() =~= s0.to_set().insert(name@)) by {
                    assert forall|x: Seq<char>| s0.to_set().insert(name@).contains(x) implies s1.to_set().contains(x) by {
                        if x == name@ {
                            assert(s1[s0.len() as int] == x);
                        } else {
                            let j = choose|j: int| 0 <= j < s0.len() && s0[j] == x;
                            assert(s1[j] == x);
                        }
                    }
                }
            }
        } else {
            proof {
                assert(self@.insert(name@) =~= self@);
            }
        }
    }
}

} // verus!
