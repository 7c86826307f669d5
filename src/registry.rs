//! Drivers and the table that resolves a URI's scheme to one of them.

use vstd::prelude::*;

verus! {

/// The driver variants the runtime knows.
#[derive(Debug, Clone, Copy, PartialEq, Eq, Structural)]
pub enum DriverKind {
    Tcp,
    Http,
    Ipfs,
    S3,
    Cdylib,
    Memory,
    Cgi,
}

/// A resource driver: what it is, and the scheme it serves.
#[derive(Debug)]
pub struct Driver {
    pub kind: DriverKind,
    pub name: String,
}

impl Driver {
    pub fn new(kind: DriverKind, name: &str) -> (r: Driver)
        ensures
            r.kind == kind,
            r.name@ == name@,
    {
        Driver { kind, name: String::from_str(name) }
    }

    /// The scheme identifier the driver serves.
    pub fn name(&self) -> (r: &str)
        ensures
            r@ == self.name@,
    {
        self.name.as_str()
    }
}

/// What `str::to_lowercase` makes of a string.
pub uninterp spec fn lower_of(s: Seq<char>) -> Seq<char>;

/// Relies on str::to_lowercase: the result depends on the characters alone.
#[verifier::external_body]
fn lowercase(s: &str) -> (r: String)
    ensures
        r@ == lower_of(s@),
{
    s.to_lowercase()
}

/// A scheme in lower case: the registry's key.
pub open spec fn scheme_key(s: Seq<char>) -> Seq<char> {
    lower_of(s)
}

pub open spec fn is_alpha(c: char) -> bool {
    ('a' <= c && c <= 'z') || ('A' <= c && c <= 'Z')
}

pub open spec fn is_scheme_char(c: char) -> bool {
    is_alpha(c) || ('0' <= c && c <= '9') || c == '+' || c == '-' || c == '.'
}

/// How many scheme characters stand at the start of `s`.
pub open spec fn scheme_run(s: Seq<char>) -> nat
    decreases s.len(),
{
    if s.len() > 0 && is_scheme_char(s[0]) {
        1 + scheme_run(s.drop_first())
    } else {
        0
    }
}

/// The scheme of a URI `scheme://rest`: a letter, then letters, digits, `+`,
/// `-` or `.`, then `://`.
pub open spec fn scheme_of(uri: Seq<char>) -> Option<Seq<char>> {
    let k = scheme_run(uri);
    if k > 0 && is_alpha(uri[0]) && k + 3 <= uri.len() && uri[k as int] == ':' && uri[k + 1int]
        == '/' && uri[k + 2int] == '/' {
        Some(uri.take(k as int))
    } else {
        None
    }
}

proof fn lemma_scheme_run_bound(s: Seq<char>)
    ensures
        scheme_run(s) <= s.len(),
        forall|i: int| 0 <= i < scheme_run(s) ==> is_scheme_char(#[trigger] s[i]),
        scheme_run(s) < s.len() ==> !is_scheme_char(s[scheme_run(s) as int]),
    decreases s.len(),
{
    if s.len() > 0 && is_scheme_char(s[0]) {
        lemma_scheme_run_bound(s.drop_first());
        assert forall|i: int| 0 <= i < scheme_run(s) implies is_scheme_char(#[trigger] s[i]) by {
            if i > 0 {
                assert(s[i] == s.drop_first()[i - 1]);
            }
        }
    }
}

fn is_alpha_exec(c: char) -> (r: bool)
    ensures
        r == is_alpha(c),
{
    ('a' <= c && c <= 'z') || ('A' <= c && c <= 'Z')
}

fn is_scheme_char_exec(c: char) -> (r: bool)
    ensures
        r == is_scheme_char(c),
{
    is_alpha_exec(c) || ('0' <= c && c <= '9') || c == '+' || c == '-' || c == '.'
}

/// The length of the scheme of `uri`, when it has one.
pub fn scheme_len(uri: &str) -> (r: Option<usize>)
    ensures
        match scheme_of(uri@) {
            Some(s) => r matches Some(k) && k == s.len(),
            None => r is None,
        },
{
    let n = uri.unicode_len();
    let mut k: usize = 0;
    proof {
        lemma_scheme_run_bound(uri@);
    }
    while k < n && is_scheme_char_exec(uri.get_char(k))
        invariant
            n == uri@.len(),
            k <= scheme_run(uri@),
            scheme_run(uri@) <= n,
            forall|i: int| 0 <= i < scheme_run(uri@) ==> is_scheme_char(#[trigger] uri@[i]),
            scheme_run(uri@) < uri@.len() ==> !is_scheme_char(uri@[scheme_run(uri@) as int]),
        decreases n - k,
    {
        k = k + 1;
    }
    assert(k == scheme_run(uri@));
    if k > 0 && is_alpha_exec(uri.get_char(0)) && n - k >= 3 && uri.get_char(k) == ':'
        && uri.get_char(k + 1) == '/' && uri.get_char(k + 2) == '/' {
        Some(k)
    } else {
        None
    }
}

/// The driver table: at most one driver per scheme, schemes compared in
/// lower case.
pub struct DriverConetxtImpl {
    drivers: Vec<Driver>,
    /// The lower-case name of each driver.
    keys: Vec<String>,
    table: Ghost<Map<Seq<char>, Driver>>,
}

impl View for DriverConetxtImpl {
    type V = Map<Seq<char>, Driver>;

    closed spec fn view(&self) -> Map<Seq<char>, Driver> {
        self.table@
    }
}

impl DriverConetxtImpl {
    pub closed spec fn wf(&self) -> bool {
        &&& self.keys@.len() == self.drivers@.len()
        &&& forall|i: int|
            0 <= i < self.keys@.len() ==> (#[trigger] self.keys@[i])@ == scheme_key(
                self.drivers@[i].name@,
            )
        &&& forall|i: int, j: int|
            0 <= i < j < self.drivers@.len() ==> scheme_key(#[trigger] self.drivers@[i].name@)
                != scheme_key(#[trigger] self.drivers@[j].name@)
        &&& forall|i: int|
            0 <= i < self.drivers@.len() ==> self.table@.contains_key(
                scheme_key(#[trigger] self.drivers@[i].name@),
            ) && self.table@[scheme_key(self.drivers@[i].name@)] == self.drivers@[i]
        &&& forall|k: Seq<char>|
            #[trigger] self.table@.contains_key(k) ==> exists|i: int|
                0 <= i < self.drivers@.len() && scheme_key(#[trigger] self.drivers@[i].name@) == k
    }

    /// The driver that a URI resolves to: the one registered under its
    /// scheme, compared in lower case; none for a URI without a scheme or with an
    /// unregistered one.
    pub open spec fn resolve(&self, uri: Seq<char>) -> Option<Driver> {
        match scheme_of(uri) {
            Some(s) => if self@.contains_key(scheme_key(s)) {
                Some(self@[scheme_key(s)])
            } else {
                None
            },
            None => None,
        }
    }

    pub fn new() -> (r: Self)
        ensures
            r.wf(),
            r@ == Map::<Seq<char>, Driver>::empty(),
    {
        DriverConetxtImpl { drivers: Vec::new(), keys: Vec::new(), table: Ghost(Map::empty()) }
    }

    /// Registers `driver` under its name, replacing the driver that held the
    /// same name in lower case.
    pub fn insert_driver(&mut self, driver: Driver)
        requires
            old(self).wf(),
        ensures
            final(self).wf(),
            final(self)@ == old(self)@.insert(scheme_key(driver.name@), driver),
    {
        let ghost key = scheme_key(driver.name@);
        let key_s = lowercase(driver.name.as_str());
        let mut i: usize = 0;
        while i < self.drivers.len()
            invariant
                self.wf(),
                *self == *old(self),
                key == scheme_key(driver.name@),
                key_s@ == key,
                i <= self.drivers@.len(),
                forall|j: int| 0 <= j < i ==> scheme_key(#[trigger] self.drivers@[j].name@) != key,
            decreases self.drivers@.len() - i,
        {
            let same = self.keys[i] == key_s;
            assert(self.keys@[i as int]@ == scheme_key(self.drivers@[i as int].name@));
            if same {
                let ghost old_drivers = self.drivers@;
                self.drivers.set(i, driver);
                self.table = Ghost(self.table@.insert(key, self.drivers@[i as int]));
                assert forall|k: Seq<char>| #[trigger] self.table@.contains_key(k) implies exists|j: int|
                    0 <= j < self.drivers@.len() && scheme_key(#[trigger] self.drivers@[j].name@) == k by {
                    if k == key {
                        assert(scheme_key(self.drivers@[i as int].name@) == k);
                    } else {
                        let j = choose|j: int|
                            0 <= j < old_drivers.len() && scheme_key(#[trigger] old_drivers[j].name@) == k;
                        assert(scheme_key(self.drivers@[j].name@) == k);
                    }
                }
                return;
            }
            i = i + 1;
        }
        let ghost old_drivers = self.drivers@;
        self.drivers.push(driver);
        self.keys.push(key_s);
        self.table = Ghost(self.table@.insert(key, driver));
        assert forall|k: Seq<char>| #[trigger] self.table@.contains_key(k) implies exists|j: int|
            0 <= j < self.drivers@.len() && scheme_key(#[trigger] self.drivers@[j].name@) == k by {
            if k == key {
                assert(scheme_key(self.drivers@[old_drivers.len() as int].name@) == k);
            } else {
                let j = choose|j: int|
                    0 <= j < old_drivers.len() && scheme_key(#[trigger] old_drivers[j].name@) == k;
                assert(scheme_key(self.drivers@[j].name@) == k);
            }
        }
    }

    /// The driver for `uri`'s scheme, if one is registered.
    pub fn find_driver(&self, uri: &str) -> (r: Option<&Driver>)
        requires
            self.wf(),
        ensures
            match self.resolve(uri@) {
                Some(d) => r == Some(&d),
                None => r is None,
            },
    {
        let found = scheme_len(uri);
        let k = match found {
            Some(k) => k,
            None => return None,
        };
        assert(found == Some(k));
        let ghost scheme = uri@.take(k as int);
        assert(scheme_of(uri@) is Some);
        proof {
            lemma_scheme_run_bound(uri@);
        }
        assert(scheme_of(uri@)->Some_0.len() == k);
        assert(scheme_of(uri@)->Some_0 =~= scheme);
        let key_s = lowercase(uri.substring_char(0, k));
        let mut i: usize = 0;
        while i < self.drivers.len()
            invariant
                self.wf(),
                scheme_of(uri@) == Some(scheme),
                key_s@ == scheme_key(scheme),
                i <= self.drivers@.len(),
                forall|j: int|
                    0 <= j < i ==> scheme_key(#[trigger] self.drivers@[j].name@) != scheme_key(scheme),
            decreases self.drivers@.len() - i,
        {
            let same = self.keys[i] == key_s;
            assert(self.keys@[i as int]@ == scheme_key(self.drivers@[i as int].name@));
            if same {
                return Some(&self.drivers[i]);
            }
            i = i + 1;
        }
        proof {
            if self@.contains_key(scheme_key(scheme)) {
                let j = choose|j: int|
                    0 <= j < self.drivers@.len() && scheme_key(#[trigger] self.drivers@[j].name@)
                        == scheme_key(scheme);
            }
        }
        None
    }
}

/// The runtime's registry of drivers, built at start-up and consulted for
/// every resource access.
pub struct DriverConetxt {
    pub drivers: DriverConetxtImpl,
}

impl DriverConetxt {
    pub fn new() -> (r: Self)
        ensures
            r.drivers.wf(),
            r.drivers@ == Map::<Seq<char>, Driver>::empty(),
    {
        DriverConetxt { drivers: DriverConetxtImpl::new() }
    }

    pub fn find_driver(&self, uri: &str) -> (r: Option<&Driver>)
        requires
            self.drivers.wf(),
        ensures
            match self.drivers.resolve(uri@) {
                Some(d) => r == Some(&d),
                None => r is None,
            },
    {
        self.drivers.find_driver(uri)
    }

    pub fn insert_driver(&mut self, driver: Driver)
        requires
            old(self).drivers.wf(),
        ensures
            final(self).drivers.wf(),
            final(self).drivers@ == old(self).drivers@.insert(scheme_key(driver.name@), driver),
    {
        self.drivers.insert_driver(driver);
    }

    /// Registers the built-in drivers: the HTTP driver when one was loaded,
    /// then the TCP driver under `tcp`.
    pub fn init_built_in_drivers(&mut self, http_driver: Option<Driver>)
        requires
            old(self).drivers.wf(),
        ensures
            final(self).drivers.wf(),
            final(self).drivers@.contains_key(scheme_key(seq!['t', 'c', 'p'])),
            final(self).drivers@[scheme_key(seq!['t', 'c', 'p'])].kind == DriverKind::Tcp,
            final(self).drivers@[scheme_key(seq!['t', 'c', 'p'])].name@ == seq!['t', 'c', 'p'],
            final(self).drivers@.remove(scheme_key(seq!['t', 'c', 'p'])) == match http_driver {
                Some(h) => old(self).drivers@.insert(scheme_key(h.name@), h),
                None => old(self).drivers@,
            }.remove(scheme_key(seq!['t', 'c', 'p'])),
    {
        match http_driver {
            Some(h) => self.insert_driver(h),
            None => {},
        }
        proof {
            reveal_strlit("tcp");
        }
        let tcp = Driver::new(DriverKind::Tcp, "tcp");
        assert(tcp.name@ =~= seq!['t', 'c', 'p']);
        let ghost mid = self.drivers@;
        self.insert_driver(tcp);
        assert(self.drivers@.remove(scheme_key(seq!['t', 'c', 'p'])) =~= mid.remove(scheme_key(seq!['t', 'c', 'p'])));
    }
}

/// Law: a URI resolves the same way whatever the case of its scheme (two
/// schemes with the same lower case), and the driver it finds is the one
/// registered under that scheme.
pub proof fn lemma_scheme_case_insensitive(reg: DriverConetxtImpl, u1: Seq<char>, u2: Seq<char>)
    requires
        scheme_of(u1) is Some,
        scheme_of(u2) is Some,
        lower_of(scheme_of(u1)->Some_0) == lower_of(scheme_of(u2)->Some_0),
    ensures
        reg.resolve(u1) == reg.resolve(u2),
        reg@.contains_key(scheme_key(scheme_of(u1)->Some_0)) ==> reg.resolve(u1) == Some(
            reg@[scheme_key(scheme_of(u1)->Some_0)],
        ),
        !reg@.contains_key(scheme_key(scheme_of(u1)->Some_0)) ==> reg.resolve(u1) is None,
{
}

/// Law: of two drivers registered under names with the same lower case,
/// only the second resolves, and no other scheme is touched.
pub proof fn lemma_last_registration_wins(
    r0: DriverConetxtImpl,
    r1: DriverConetxtImpl,
    r2: DriverConetxtImpl,
    d1: Driver,
    d2: Driver,
    uri: Seq<char>,
)
    requires
        r1@ == r0@.insert(scheme_key(d1.name@), d1),
        r2@ == r1@.insert(scheme_key(d2.name@), d2),
        lower_of(d1.name@) == lower_of(d2.name@),
        scheme_of(uri) is Some,
    ensures
        lower_of(scheme_of(uri)->Some_0) == lower_of(d1.name@) ==> r2.resolve(uri) == Some(d2),
        lower_of(scheme_of(uri)->Some_0) != lower_of(d1.name@) ==> r2.resolve(uri) == r0.resolve(
            uri,
        ),
{
}

} // verus!
