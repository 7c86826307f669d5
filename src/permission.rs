//! The capability model: per resource class, what is granted and what is
//! denied, and the decisions taken from it before any I/O.

use vstd::prelude::*;
use crate::error::ErrorKind;
use crate::path::{is_absolute, normalize, normalize_path};
use crate::text::{decimal, is_prefix, matches_at, push_decimal, starts_with_ignore_case};

verus! {

/// A granted network capability, matched as a URL prefix.
#[derive(Clone, Debug)]
pub struct Permission {
    pub url: String,
    pub schema: String,
}

impl Permission {
    /// Whether `url` falls under this permission: `url` starts with the
    /// permission's URL, ignoring ASCII case.
    ///
    /// This is a plain text prefix test, not a comparison of scheme, host and
    /// path: `http://example.com` also covers `http://example.com.evil.com`.
    pub fn is_permision(&self, url: &str) -> (r: bool)
        ensures
            r == starts_with_ignore_case(url@, self.url@),
    {
        let r = matches_at(url, 0, self.url.as_str(), true);
        assert(url@.subrange(0, self.url@.len() as int) =~= url@.take(self.url@.len() as int));
        r
    }
}

/// Resource classes that a permission governs.
#[derive(Debug, Clone, Copy, PartialEq, Eq, Structural)]
pub enum PermissionKind {
    Read,
    Write,
    Net,
    Env,
    Run,
    Sys,
    Ffi,
}

/// The answer to a query.
#[derive(Debug, Clone, Copy, PartialEq, Eq, Structural)]
pub enum PermissionState {
    Granted,
    Prompt,
    Denied,
}

/// The character after which a descriptor of the class names something
/// inside what a shorter descriptor names: a path below a directory, a port
/// of a host. Classes without one match whole descriptors only.
pub open spec fn separator(kind: PermissionKind) -> Option<char> {
    match kind {
        PermissionKind::Read | PermissionKind::Write | PermissionKind::Ffi => Some('/'),
        PermissionKind::Net => Some(':'),
        _ => None,
    }
}

/// A grant or denial `g` reaches the descriptor `d`.
pub open spec fn covers(kind: PermissionKind, g: Seq<char>, d: Seq<char>) -> bool {
    d == g || match separator(kind) {
        Some(sep) => is_prefix(g, d) && ((g.len() < d.len() && d[g.len() as int] == sep) || (
        g.len() > 0 && g.last() == sep)),
        None => false,
    }
}

pub open spec fn listed(kind: PermissionKind, list: Seq<String>, d: Seq<char>) -> bool {
    exists|i: int| 0 <= i < list.len() && covers(kind, #[trigger] list[i]@, d)
}

/// What one class says of a descriptor: a denial reaches it, else a grant,
/// else nothing was decided.
pub open spec fn class_state(kind: PermissionKind, g: ClassGrants, d: Seq<char>) -> PermissionState {
    if listed(kind, g.denied@, d) {
        PermissionState::Denied
    } else if g.all || listed(kind, g.allowed@, d) {
        PermissionState::Granted
    } else {
        PermissionState::Prompt
    }
}

/// The grants and denials of one resource class.
#[derive(Clone, Debug)]
pub struct ClassGrants {
    /// Everything of the class is granted, but for the denials.
    pub all: bool,
    pub allowed: Vec<String>,
    pub denied: Vec<String>,
}

impl ClassGrants {
    /// Nothing granted, nothing denied.
    pub fn none() -> (r: ClassGrants)
        ensures
            !r.all,
            r.allowed@.len() == 0,
            r.denied@.len() == 0,
    {
        ClassGrants { all: false, allowed: Vec::new(), denied: Vec::new() }
    }
}

/// How a derived child permission set obtains one class.
#[derive(Clone, Debug)]
pub enum ChildPermissionArg {
    /// The parent's grants, as they are.
    Inherit,
    /// Nothing of the class.
    NotGranted,
    /// Exactly these descriptors, each of which the parent must grant.
    Granted(Vec<String>),
}

/// How a derived child permission set obtains each class.
#[derive(Clone, Debug)]
pub struct ChildPermissionsArg {
    pub read: ChildPermissionArg,
    pub write: ChildPermissionArg,
    pub net: ChildPermissionArg,
    pub env: ChildPermissionArg,
    pub run: ChildPermissionArg,
    pub sys: ChildPermissionArg,
    pub ffi: ChildPermissionArg,
}

impl ChildPermissionsArg {
    pub open spec fn arg_of(&self, kind: PermissionKind) -> ChildPermissionArg {
        match kind {
            PermissionKind::Read => self.read,
            PermissionKind::Write => self.write,
            PermissionKind::Net => self.net,
            PermissionKind::Env => self.env,
            PermissionKind::Run => self.run,
            PermissionKind::Sys => self.sys,
            PermissionKind::Ffi => self.ffi,
        }
    }

    /// Every class inherited.
    pub fn inherit() -> (r: ChildPermissionsArg)
        ensures
            forall|k: PermissionKind| r.arg_of(k) is Inherit,
    {
        ChildPermissionsArg {
            read: ChildPermissionArg::Inherit,
            write: ChildPermissionArg::Inherit,
            net: ChildPermissionArg::Inherit,
            env: ChildPermissionArg::Inherit,
            run: ChildPermissionArg::Inherit,
            sys: ChildPermissionArg::Inherit,
            ffi: ChildPermissionArg::Inherit,
        }
    }

    fn get(&self, kind: PermissionKind) -> (r: &ChildPermissionArg)
        ensures
            *r == self.arg_of(kind),
    {
        match kind {
            PermissionKind::Read => &self.read,
            PermissionKind::Write => &self.write,
            PermissionKind::Net => &self.net,
            PermissionKind::Env => &self.env,
            PermissionKind::Run => &self.run,
            PermissionKind::Sys => &self.sys,
            PermissionKind::Ffi => &self.ffi,
        }
    }
}

/// The permissions of one guest execution: a grant set per class, and the
/// allow-all flag, which overrides every class.
#[derive(Clone, Debug)]
pub struct BlsRuntimePermissionsContainer {
    pub allow_all: bool,
    pub read: ClassGrants,
    pub write: ClassGrants,
    pub net: ClassGrants,
    pub env: ClassGrants,
    pub run: ClassGrants,
    pub sys: ClassGrants,
    pub ffi: ClassGrants,
    /// The directory that relative paths are resolved against.
    pub cwd: String,
}

/// Classes whose descriptors are filesystem paths.
pub open spec fn is_path_kind(kind: PermissionKind) -> bool {
    kind == PermissionKind::Read || kind == PermissionKind::Write || kind == PermissionKind::Ffi
}

/// The descriptor that a check decides on: a path in normal form, a
/// relative one first resolved against `cwd`; any other descriptor as given.
pub open spec fn checked_descriptor(kind: PermissionKind, d: Seq<char>, cwd: Seq<char>) -> Seq<char> {
    if is_path_kind(kind) {
        if is_absolute(d) {
            normalize_path(d)
        } else {
            normalize_path(cwd + seq!['/'] + d)
        }
    } else {
        d
    }
}

/// The net descriptor of a host and an optional port: `host` or `host:port`.
pub open spec fn net_descriptor(host: Seq<char>, port: Option<u16>) -> Seq<char> {
    match port {
        Some(p) => host.push(':') + decimal(p as nat),
        None => host,
    }
}

fn covers_exec(kind: PermissionKind, g: &str, d: &str) -> (r: bool)
    ensures
        r == covers(kind, g@, d@),
{
    let glen = g.unicode_len();
    let dlen = d.unicode_len();
    let sep = match kind {
        PermissionKind::Read | PermissionKind::Write | PermissionKind::Ffi => '/',
        PermissionKind::Net => ':',
        _ => {
            let same = matches_at(d, 0, g, false) && glen == dlen;
            assert(same <==> d@ =~= g@) by {
                if same || d@ == g@ {
                    assert(d@.subrange(0, g@.len() as int) =~= d@);
                }
            };
            return same;
        },
    };
    let pre = matches_at(d, 0, g, false);
    if !pre {
        assert(!is_prefix(g@, d@)) by {
            if is_prefix(g@, d@) {
                assert(d@.subrange(0, g@.len() as int) =~= d@.take(g@.len() as int));
            }
        };
        assert(d@ != g@) by {
            if d@ == g@ {
                assert(d@.take(g@.len() as int) =~= g@);
            }
        };
        return false;
    }
    assert(d@.subrange(0, g@.len() as int) =~= d@.take(g@.len() as int));
    if glen == dlen {
        assert(d@ =~= g@) by {
            assert(d@.take(g@.len() as int) =~= d@);
        };
        return true;
    }
    let next_is_sep = d.get_char(glen) == sep;
    let ends_with_sep = glen > 0 && g.get_char(glen - 1) == sep;
    next_is_sep || ends_with_sep
}

fn listed_exec(kind: PermissionKind, list: &Vec<String>, d: &str) -> (r: bool)
    ensures
        r == listed(kind, list@, d@),
{
    let mut i: usize = 0;
    while i < list.len()
        invariant
            i <= list@.len(),
            forall|j: int| 0 <= j < i ==> !covers(kind, (#[trigger] list@[j])@, d@),
        decreases list@.len() - i,
    {
        if covers_exec(kind, list[i].as_str(), d) {
            return true;
        }
        i = i + 1;
    }
    false
}

fn class_state_exec(kind: PermissionKind, g: &ClassGrants, d: &str) -> (r: PermissionState)
    ensures
        r == class_state(kind, *g, d@),
{
    if listed_exec(kind, &g.denied, d) {
        PermissionState::Denied
    } else if g.all || listed_exec(kind, &g.allowed, d) {
        PermissionState::Granted
    } else {
        PermissionState::Prompt
    }
}

/// Removes every entry of `list` that reaches `d`.
fn remove_covering(kind: PermissionKind, list: &mut Vec<String>, d: &str)
    ensures
        !listed(kind, final(list)@, d@),
        forall|i: int| 0 <= i < final(list)@.len() ==> #[trigger] old(list)@.contains(final(list)@[i]),
        forall|i: int|
            0 <= i < old(list)@.len() && !covers(kind, old(list)@[i]@, d@) ==> final(list)@.contains(
                #[trigger] old(list)@[i],
            ),
{
    let mut kept: Vec<String> = Vec::new();
    let mut i: usize = 0;
    while i < list.len()
        invariant
            i <= list@.len(),
            list@ == old(list)@,
            forall|j: int| 0 <= j < kept@.len() ==> !covers(kind, (#[trigger] kept@[j])@, d@),
            forall|j: int| 0 <= j < kept@.len() ==> #[trigger] old(list)@.contains(kept@[j]),
            forall|j: int|
                0 <= j < i && !covers(kind, old(list)@[j]@, d@) ==> kept@.contains(
                    #[trigger] old(list)@[j],
                ),
        decreases list@.len() - i,
    {
        let ghost before = kept@;
        if !covers_exec(kind, list[i].as_str(), d) {
            kept.push(list[i].clone());
            assert(old(list)@.contains(list@[i as int]));
            assert(kept@[before.len() as int] == list@[i as int]);
            assert forall|j: int| 0 <= j < before.len() implies kept@[j] == before[j] by {}
        }
        i = i + 1;
    }
    *list = kept;
}

/// A copy of a list of descriptors.
fn clone_strings(v: &Vec<String>) -> (r: Vec<String>)
    ensures
        r@ == v@,
{
    let mut r: Vec<String> = Vec::new();
    let mut i: usize = 0;
    while i < v.len()
        invariant
            i <= v@.len(),
            r@ == v@.take(i as int),
        decreases v@.len() - i,
    {
        r.push(v[i].clone());
        i = i + 1;
        assert(r@ =~= v@.take(i as int));
    }
    assert(v@.take(i as int) =~= v@);
    r
}

impl ClassGrants {
    /// Everything of the class granted.
    pub fn everything() -> (r: ClassGrants)
        ensures
            r.all,
            r.allowed@.len() == 0,
            r.denied@.len() == 0,
    {
        ClassGrants { all: true, allowed: Vec::new(), denied: Vec::new() }
    }

    /// A copy with the same grants and denials.
    pub fn duplicate(&self) -> (r: ClassGrants)
        ensures
            r.all == self.all,
            r.allowed@ == self.allowed@,
            r.denied@ == self.denied@,
    {
        ClassGrants {
            all: self.all,
            allowed: clone_strings(&self.allowed),
            denied: clone_strings(&self.denied),
        }
    }
}

pub open spec fn same_grants(a: ClassGrants, b: ClassGrants) -> bool {
    a.all == b.all && a.allowed@ == b.allowed@ && a.denied@ == b.denied@
}

impl BlsRuntimePermissionsContainer {
    pub open spec fn class(&self, kind: PermissionKind) -> ClassGrants {
        match kind {
            PermissionKind::Read => self.read,
            PermissionKind::Write => self.write,
            PermissionKind::Net => self.net,
            PermissionKind::Env => self.env,
            PermissionKind::Run => self.run,
            PermissionKind::Sys => self.sys,
            PermissionKind::Ffi => self.ffi,
        }
    }

    /// The decision on descriptor `d` of class `kind`: allow-all grants
    /// everything; otherwise the class decides.
    pub open spec fn state_of(&self, kind: PermissionKind, d: Seq<char>) -> PermissionState {
        if self.allow_all {
            PermissionState::Granted
        } else {
            class_state(kind, self.class(kind), d)
        }
    }

    /// The whole class is granted, with no denial in it.
    pub open spec fn grants_whole(&self, kind: PermissionKind) -> bool {
        self.allow_all || (self.class(kind).all && self.class(kind).denied@.len() == 0)
    }

    /// Nothing granted: every check is denied.
    pub fn new() -> (r: Self)
        ensures
            !r.allow_all,
            forall|k: PermissionKind| #![auto] !r.class(k).all && r.class(k).allowed@.len() == 0
                && r.class(k).denied@.len() == 0,
    {
        BlsRuntimePermissionsContainer {
            allow_all: false,
            cwd: String::from_str("/"),
            read: ClassGrants::none(),
            write: ClassGrants::none(),
            net: ClassGrants::none(),
            env: ClassGrants::none(),
            run: ClassGrants::none(),
            sys: ClassGrants::none(),
            ffi: ClassGrants::none(),
        }
    }

    /// Everything granted, with the allow-all flag set.
    pub fn allow_all() -> (r: Self)
        ensures
            r.allow_all,
            forall|k: PermissionKind| #![auto] r.class(k).all && r.class(k).allowed@.len() == 0
                && r.class(k).denied@.len() == 0,
    {
        BlsRuntimePermissionsContainer {
            allow_all: true,
            cwd: String::from_str("/"),
            read: ClassGrants::everything(),
            write: ClassGrants::everything(),
            net: ClassGrants::everything(),
            env: ClassGrants::everything(),
            run: ClassGrants::everything(),
            sys: ClassGrants::everything(),
            ffi: ClassGrants::everything(),
        }
    }

    /// The grants of one class.
    pub fn class_grants(&self, kind: PermissionKind) -> (r: &ClassGrants)
        ensures
            *r == self.class(kind),
    {
        match kind {
            PermissionKind::Read => &self.read,
            PermissionKind::Write => &self.write,
            PermissionKind::Net => &self.net,
            PermissionKind::Env => &self.env,
            PermissionKind::Run => &self.run,
            PermissionKind::Sys => &self.sys,
            PermissionKind::Ffi => &self.ffi,
        }
    }

    fn class_grants_mut(&mut self, kind: PermissionKind) -> (r: &mut ClassGrants)
        ensures
            *r == old(self).class(kind),
            final(self).allow_all == old(self).allow_all,
            final(self).class(kind) == *final(r),
            forall|k: PermissionKind| k != kind ==> #[trigger] final(self).class(k) == old(self).class(k),
    {
        match kind {
            PermissionKind::Read => &mut self.read,
            PermissionKind::Write => &mut self.write,
            PermissionKind::Net => &mut self.net,
            PermissionKind::Env => &mut self.env,
            PermissionKind::Run => &mut self.run,
            PermissionKind::Sys => &mut self.sys,
            PermissionKind::Ffi => &mut self.ffi,
        }
    }

    /// Adds a grant of descriptor `d` to class `kind`.
    pub fn grant(&mut self, kind: PermissionKind, d: &str)
        ensures
            final(self).allow_all == old(self).allow_all,
            final(self).class(kind).all == old(self).class(kind).all,
            final(self).class(kind).allowed@.len() == old(self).class(kind).allowed@.len() + 1,
            final(self).class(kind).allowed@.drop_last() == old(self).class(kind).allowed@,
            final(self).class(kind).allowed@.last()@ == d@,
            final(self).class(kind).denied@ == old(self).class(kind).denied@,
            forall|k: PermissionKind| k != kind ==> #[trigger] final(self).class(k) == old(self).class(k),
    {
        let c = self.class_grants_mut(kind);
        c.allowed.push(String::from_str(d));
        assert(c.allowed@.drop_last() =~= old(self).class(kind).allowed@);
    }

    /// Adds a denial of descriptor `d` to class `kind`.
    pub fn deny(&mut self, kind: PermissionKind, d: &str)
        ensures
            final(self).allow_all == old(self).allow_all,
            final(self).class(kind).all == old(self).class(kind).all,
            final(self).class(kind).allowed@ == old(self).class(kind).allowed@,
            final(self).class(kind).denied@.len() == old(self).class(kind).denied@.len() + 1,
            final(self).class(kind).denied@.drop_last() == old(self).class(kind).denied@,
            final(self).class(kind).denied@.last()@ == d@,
            forall|k: PermissionKind| k != kind ==> #[trigger] final(self).class(k) == old(self).class(k),
    {
        let c = self.class_grants_mut(kind);
        c.denied.push(String::from_str(d));
        assert(c.denied@.drop_last() =~= old(self).class(kind).denied@);
    }

    /// Grants the whole of class `kind`, but for its denials.
    pub fn grant_all(&mut self, kind: PermissionKind)
        ensures
            final(self).allow_all == old(self).allow_all,
            final(self).class(kind).all,
            final(self).class(kind).allowed@ == old(self).class(kind).allowed@,
            final(self).class(kind).denied@ == old(self).class(kind).denied@,
            forall|k: PermissionKind| k != kind ==> #[trigger] final(self).class(k) == old(self).class(k),
    {
        let c = self.class_grants_mut(kind);
        c.all = true;
    }

    /// What the permissions say of descriptor `d` of class `kind`.
    pub fn query(&self, kind: PermissionKind, d: &str) -> (r: PermissionState)
        ensures
            r == self.state_of(kind, d@),
    {
        if self.allow_all {
            PermissionState::Granted
        } else {
            class_state_exec(kind, self.class_grants(kind), d)
        }
    }

    /// Decides on descriptor `d` of class `kind` and returns the descriptor
    /// decided on. Paths (read, write, ffi) are decided on in normal form,
    /// a relative one resolved against `cwd` first, with `.` and `..`
    /// segments resolved, so that no `..` reaches outside a granted
    /// directory. Fails with `PermissionDeny` where the descriptor is not
    /// granted, also where nothing was decided; under allow-all every check
    /// succeeds.
    pub fn check(&self, kind: PermissionKind, d: &str, api_name: &str) -> (r: Result<String, ErrorKind>)
        ensures
            r is Ok <==> self.state_of(kind, checked_descriptor(kind, d@, self.cwd@))
                == PermissionState::Granted,
            r matches Ok(s) ==> s@ == checked_descriptor(kind, d@, self.cwd@),
            r is Err ==> r == Err::<String, ErrorKind>(ErrorKind::PermissionDeny),
    {
        let q = match kind {
            PermissionKind::Read | PermissionKind::Write | PermissionKind::Ffi => {
                if d.unicode_len() > 0 && d.get_char(0) == '/' {
                    normalize(d)
                } else {
                    let mut full = self.cwd.clone();
                    proof {
                        reveal_strlit("/");
                    }
                    full.append("/");
                    full.append(d);
                    assert(full@ =~= self.cwd@ + seq!['/'] + d@);
                    normalize(full.as_str())
                }
            },
            _ => String::from_str(d),
        };
        match self.query(kind, q.as_str()) {
            PermissionState::Granted => Ok(q),
            _ => Err(ErrorKind::PermissionDeny),
        }
    }

    /// Whether the whole of class `kind` is granted.
    pub fn query_all(&self, kind: PermissionKind) -> (r: bool)
        ensures
            r == self.grants_whole(kind),
    {
        let c = self.class_grants(kind);
        self.allow_all || (c.all && c.denied.len() == 0)
    }

    /// Succeeds exactly when the whole of class `kind` is granted.
    pub fn check_all(&self, kind: PermissionKind, api_name: &str) -> (r: Result<(), ErrorKind>)
        ensures
            r is Ok <==> self.grants_whole(kind),
            r is Err ==> r == Err::<(), ErrorKind>(ErrorKind::PermissionDeny),
    {
        if self.query_all(kind) {
            Ok(())
        } else {
            Err(ErrorKind::PermissionDeny)
        }
    }

    /// Whether the allow-all flag was given, which is not the same as every
    /// class being granted.
    pub fn check_was_allow_all_flag_passed(&self) -> (r: Result<(), ErrorKind>)
        ensures
            r is Ok <==> self.allow_all,
            r is Err ==> r == Err::<(), ErrorKind>(ErrorKind::PermissionDeny),
    {
        if self.allow_all {
            Ok(())
        } else {
            Err(ErrorKind::PermissionDeny)
        }
    }

    /// Checks access to `host`, or to `host:port` when a port is given.
    pub fn check_net(&self, host: &str, port: Option<u16>, api_name: &str) -> (r: Result<(), ErrorKind>)
        ensures
            r is Ok <==> self.state_of(PermissionKind::Net, net_descriptor(host@, port))
                == PermissionState::Granted,
            r is Err ==> r == Err::<(), ErrorKind>(ErrorKind::PermissionDeny),
    {
        let mut d = String::from_str(host);
        match port {
            Some(p) => {
                proof {
                    reveal_strlit(":");
                }
                d.append(":");
                push_decimal(&mut d, p as u64);
            },
            None => {},
        }
        proof {
            if let Some(p) = port {
                assert(d@ =~= net_descriptor(host@, port));
            }
        }
        match self.check(PermissionKind::Net, d.as_str(), api_name) {
            Ok(_) => Ok(()),
            Err(e) => Err(e),
        }
    }

    /// Withdraws the grants of class `kind` that reach `d`, or every grant of
    /// the class when `d` is absent; denials stay. Returns the new state.
    /// Under the allow-all flag everything stays granted.
    pub fn revoke(&mut self, kind: PermissionKind, d: Option<&str>) -> (r: PermissionState)
        ensures
            final(self).allow_all == old(self).allow_all,
            !final(self).class(kind).all,
            final(self).class(kind).denied@ == old(self).class(kind).denied@,
            forall|i: int| 0 <= i < final(self).class(kind).allowed@.len()
                ==> #[trigger] old(self).class(kind).allowed@.contains(final(self).class(kind).allowed@[i]),
            d is None ==> final(self).class(kind).allowed@.len() == 0,
            d matches Some(x) ==> !listed(kind, final(self).class(kind).allowed@, x@),
            d matches Some(x) ==> forall|i: int|
                0 <= i < old(self).class(kind).allowed@.len() && !covers(
                    kind,
                    old(self).class(kind).allowed@[i]@,
                    x@,
                ) ==> final(self).class(kind).allowed@.contains(
                    #[trigger] old(self).class(kind).allowed@[i],
                ),
            forall|k: PermissionKind| k != kind ==> #[trigger] final(self).class(k) == old(self).class(k),
            d matches Some(x) ==> r == final(self).state_of(kind, x@),
            d is None ==> r == (if final(self).grants_whole(kind) {
                PermissionState::Granted
            } else {
                PermissionState::Prompt
            }),
    {
        let c = self.class_grants_mut(kind);
        c.all = false;
        match d {
            Some(x) => {
                remove_covering(kind, &mut c.allowed, x);
                self.query(kind, x)
            },
            None => {
                c.allowed = Vec::new();
                if self.query_all(kind) {
                    PermissionState::Granted
                } else {
                    PermissionState::Prompt
                }
            },
        }
    }
}

impl BlsRuntimePermissionsContainer {
    /// The denials that a child keeps of class `kind`: the parent's, or none
    /// under allow-all.
    pub open spec fn inherited_denials(&self, kind: PermissionKind) -> Seq<String> {
        if self.allow_all {
            Seq::empty()
        } else {
            self.class(kind).denied@
        }
    }

    /// The parent can hand class `kind` to a child as `arg` asks: every
    /// descriptor asked for is granted to the parent.
    pub open spec fn child_class_allowed(&self, kind: PermissionKind, arg: ChildPermissionArg) -> bool {
        match arg {
            ChildPermissionArg::Granted(list) => forall|i: int|
                0 <= i < list@.len() ==> self.state_of(kind, (#[trigger] list@[i])@)
                    == PermissionState::Granted,
            _ => true,
        }
    }

    /// `c` is what a child gets of class `kind` when asking for `arg`.
    pub open spec fn child_class(&self, kind: PermissionKind, arg: ChildPermissionArg, c: ClassGrants) -> bool {
        match arg {
            ChildPermissionArg::Inherit => if self.allow_all {
                c.all && c.allowed@.len() == 0 && c.denied@.len() == 0
            } else {
                same_grants(c, self.class(kind))
            },
            ChildPermissionArg::NotGranted => !c.all && c.allowed@.len() == 0 && c.denied@
                == self.inherited_denials(kind),
            ChildPermissionArg::Granted(list) => !c.all && c.allowed@ == list@ && c.denied@
                == self.inherited_denials(kind),
        }
    }

    fn derive_class(&self, kind: PermissionKind, arg: &ChildPermissionArg) -> (r: Result<ClassGrants, ErrorKind>)
        ensures
            r is Ok <==> self.child_class_allowed(kind, *arg),
            r matches Ok(c) ==> self.child_class(kind, *arg, c),
            r is Err ==> r == Err::<ClassGrants, ErrorKind>(ErrorKind::PermissionDeny),
    {
        let denied = if self.allow_all {
            Vec::new()
        } else {
            clone_strings(&self.class_grants(kind).denied)
        };
        match arg {
            ChildPermissionArg::Inherit => {
                if self.allow_all {
                    Ok(ClassGrants::everything())
                } else {
                    Ok(self.class_grants(kind).duplicate())
                }
            },
            ChildPermissionArg::NotGranted => Ok(ClassGrants { all: false, allowed: Vec::new(), denied }),
            ChildPermissionArg::Granted(list) => {
                let mut i: usize = 0;
                while i < list.len()
                    invariant
                        i <= list@.len(),
                        *arg == ChildPermissionArg::Granted(*list),
                        forall|j: int|
                            0 <= j < i ==> self.state_of(kind, (#[trigger] list@[j])@)
                                == PermissionState::Granted,
                    decreases list@.len() - i,
                {
                    if self.query(kind, list[i].as_str()) != PermissionState::Granted {
                        assert(self.state_of(kind, list@[i as int]@) != PermissionState::Granted);
                        assert(*arg == ChildPermissionArg::Granted(*list));
                        assert(!self.child_class_allowed(kind, *arg));
                        return Err(ErrorKind::PermissionDeny);
                    }
                    i = i + 1;
                }
                Ok(ClassGrants { all: false, allowed: clone_strings(list), denied })
            },
        }
    }

    /// Derives the permissions of a nested execution. Fails with
    /// `PermissionDeny` when the child asks for a descriptor that this set
    /// does not grant; the child never holds the allow-all flag.
    pub fn create_child_permissions(&self, arg: &ChildPermissionsArg) -> (r: Result<Self, ErrorKind>)
        ensures
            r is Ok <==> forall|k: PermissionKind| #[trigger] self.child_class_allowed(k, arg.arg_of(k)),
            r matches Ok(c) ==> !c.allow_all && forall|k: PermissionKind| #[trigger] self.child_class(k, arg.arg_of(k), c.class(k)),
            r is Err ==> r == Err::<Self, ErrorKind>(ErrorKind::PermissionDeny),
    {
        let read = match self.derive_class(PermissionKind::Read, arg.get(PermissionKind::Read)) {
            Ok(c) => c,
            Err(e) => return Err(e),
        };
        let write = match self.derive_class(PermissionKind::Write, arg.get(PermissionKind::Write)) {
            Ok(c) => c,
            Err(e) => return Err(e),
        };
        let net = match self.derive_class(PermissionKind::Net, arg.get(PermissionKind::Net)) {
            Ok(c) => c,
            Err(e) => return Err(e),
        };
        let env = match self.derive_class(PermissionKind::Env, arg.get(PermissionKind::Env)) {
            Ok(c) => c,
            Err(e) => return Err(e),
        };
        let run = match self.derive_class(PermissionKind::Run, arg.get(PermissionKind::Run)) {
            Ok(c) => c,
            Err(e) => return Err(e),
        };
        let sys = match self.derive_class(PermissionKind::Sys, arg.get(PermissionKind::Sys)) {
            Ok(c) => c,
            Err(e) => return Err(e),
        };
        let ffi = match self.derive_class(PermissionKind::Ffi, arg.get(PermissionKind::Ffi)) {
            Ok(c) => c,
            Err(e) => return Err(e),
        };
        let child = BlsRuntimePermissionsContainer {
            allow_all: false,
            read,
            write,
            net,
            env,
            run,
            sys,
            ffi,
            cwd: self.cwd.clone(),
        };
        assert forall|k: PermissionKind| #[trigger] self.child_class(k, arg.arg_of(k), child.class(k)) by {
            match k {
                PermissionKind::Read => {},
                PermissionKind::Write => {},
                PermissionKind::Net => {},
                PermissionKind::Env => {},
                PermissionKind::Run => {},
                PermissionKind::Sys => {},
                PermissionKind::Ffi => {},
            }
        }
        Ok(child)
    }
}

proof fn lemma_covers_transitive(kind: PermissionKind, g: Seq<char>, i: Seq<char>, d: Seq<char>)
    requires
        covers(kind, g, i),
        covers(kind, i, d),
    ensures
        covers(kind, g, d),
{
    if d != i && i != g {
        assert(d.take(g.len() as int) =~= i.take(g.len() as int));
        if g.len() < i.len() {
            assert(d[g.len() as int] == i[g.len() as int]);
        }
    }
}

/// Law: with no grant at all, every check of every class is denied.
pub proof fn lemma_default_deny(p: BlsRuntimePermissionsContainer, kind: PermissionKind, d: Seq<char>)
    requires
        !p.allow_all,
        !p.class(kind).all,
        p.class(kind).allowed@.len() == 0,
    ensures
        p.state_of(kind, d) != PermissionState::Granted,
{
}

/// Law: the allow-all flag grants every descriptor of every class, whatever
/// the classes deny.
pub proof fn lemma_allow_all_bypasses(p: BlsRuntimePermissionsContainer, kind: PermissionKind, d: Seq<char>)
    requires
        p.allow_all,
    ensures
        p.state_of(kind, d) == PermissionState::Granted,
        p.grants_whole(kind),
{
}

/// Law: a derived child grants nothing that its parent does not grant.
pub proof fn lemma_child_never_wider(
    parent: BlsRuntimePermissionsContainer,
    arg: ChildPermissionsArg,
    child: BlsRuntimePermissionsContainer,
    kind: PermissionKind,
    d: Seq<char>,
)
    requires
        forall|k: PermissionKind| #[trigger] parent.child_class_allowed(k, arg.arg_of(k)),
        !child.allow_all,
        forall|k: PermissionKind| #[trigger] parent.child_class(k, arg.arg_of(k), child.class(k)),
    ensures
        child.state_of(kind, d) == PermissionState::Granted ==> parent.state_of(kind, d)
            == PermissionState::Granted,
        child.grants_whole(kind) ==> parent.grants_whole(kind),
{
    let a = arg.arg_of(kind);
    assert(parent.child_class_allowed(kind, a));
    assert(parent.child_class(kind, a, child.class(kind)));
    let c = child.class(kind);
    let pc = parent.class(kind);
    if child.state_of(kind, d) == PermissionState::Granted && !parent.allow_all {
        match a {
            ChildPermissionArg::Inherit => {
                assert(listed(kind, c.denied@, d) == listed(kind, pc.denied@, d));
                assert(listed(kind, c.allowed@, d) == listed(kind, pc.allowed@, d));
            },
            ChildPermissionArg::NotGranted => {},
            ChildPermissionArg::Granted(list) => {
                let j = choose|j: int| 0 <= j < c.allowed@.len() && covers(kind, #[trigger] c.allowed@[j]@, d);
                let item = list@[j]@;
                assert(parent.state_of(kind, item) == PermissionState::Granted);
                if !pc.all {
                    let g = choose|g: int| 0 <= g < pc.allowed@.len() && covers(kind, #[trigger] pc.allowed@[g]@, item);
                    lemma_covers_transitive(kind, pc.allowed@[g]@, item, d);
                }
            },
        }
    }
}

impl BlsRuntimePermissionsContainer {
    /// The decision on `d`, or on the whole class when `d` is absent.
    pub open spec fn state_of_opt(&self, kind: PermissionKind, d: Option<Seq<char>>) -> PermissionState {
        match d {
            Some(x) => self.state_of(kind, x),
            None => if self.grants_whole(kind) {
                PermissionState::Granted
            } else {
                PermissionState::Prompt
            },
        }
    }

    /// What the permissions say of `d`, or of the whole class when `d` is
    /// absent.
    pub fn query_opt(&self, kind: PermissionKind, d: Option<&str>) -> (r: PermissionState)
        ensures
            r == self.state_of_opt(kind, match d { Some(x) => Some(x@), None => None }),
    {
        match d {
            Some(x) => self.query(kind, x),
            None => if self.query_all(kind) {
                PermissionState::Granted
            } else {
                PermissionState::Prompt
            },
        }
    }

    /// Checks a path of the class as `check` does: decided on in normal
    /// form, which is returned.
    pub fn check_read(&self, path: &str, api_name: &str) -> (r: Result<String, ErrorKind>)
        ensures
            r is Ok <==> self.state_of(PermissionKind::Read, checked_descriptor(PermissionKind::Read, path@, self.cwd@))
                == PermissionState::Granted,
            r matches Ok(s) ==> s@ == checked_descriptor(PermissionKind::Read, path@, self.cwd@),
            r is Err ==> r == Err::<String, ErrorKind>(ErrorKind::PermissionDeny),
    {
        self.check(PermissionKind::Read, path, api_name)
    }

    /// Checks a path of the class as `check` does: decided on in normal
    /// form, which is returned.
    pub fn check_write(&self, path: &str, api_name: &str) -> (r: Result<String, ErrorKind>)
        ensures
            r is Ok <==> self.state_of(PermissionKind::Write, checked_descriptor(PermissionKind::Write, path@, self.cwd@))
                == PermissionState::Granted,
            r matches Ok(s) ==> s@ == checked_descriptor(PermissionKind::Write, path@, self.cwd@),
            r is Err ==> r == Err::<String, ErrorKind>(ErrorKind::PermissionDeny),
    {
        self.check(PermissionKind::Write, path, api_name)
    }

    pub fn check_env(&self, var: &str) -> (r: Result<(), ErrorKind>)
        ensures
            r is Ok <==> self.state_of(PermissionKind::Env, var@) == PermissionState::Granted,
            r is Err ==> r == Err::<(), ErrorKind>(ErrorKind::PermissionDeny),
    {
        match self.check(PermissionKind::Env, var, "") {
            Ok(_) => Ok(()),
            Err(e) => Err(e),
        }
    }

    pub fn check_run(&self, cmd: &str, api_name: &str) -> (r: Result<(), ErrorKind>)
        ensures
            r is Ok <==> self.state_of(PermissionKind::Run, cmd@) == PermissionState::Granted,
            r is Err ==> r == Err::<(), ErrorKind>(ErrorKind::PermissionDeny),
    {
        match self.check(PermissionKind::Run, cmd, api_name) {
            Ok(_) => Ok(()),
            Err(e) => Err(e),
        }
    }

    pub fn check_sys(&self, kind: &str, api_name: &str) -> (r: Result<(), ErrorKind>)
        ensures
            r is Ok <==> self.state_of(PermissionKind::Sys, kind@) == PermissionState::Granted,
            r is Err ==> r == Err::<(), ErrorKind>(ErrorKind::PermissionDeny),
    {
        match self.check(PermissionKind::Sys, kind, api_name) {
            Ok(_) => Ok(()),
            Err(e) => Err(e),
        }
    }

    /// Checks a path of the class as `check` does: decided on in normal
    /// form, which is returned.
    pub fn check_ffi(&self, path: &str) -> (r: Result<String, ErrorKind>)
        ensures
            r is Ok <==> self.state_of(PermissionKind::Ffi, checked_descriptor(PermissionKind::Ffi, path@, self.cwd@))
                == PermissionState::Granted,
            r matches Ok(s) ==> s@ == checked_descriptor(PermissionKind::Ffi, path@, self.cwd@),
            r is Err ==> r == Err::<String, ErrorKind>(ErrorKind::PermissionDeny),
    {
        self.check(PermissionKind::Ffi, path, "")
    }

    pub fn check_read_all(&self, api_name: &str) -> (r: Result<(), ErrorKind>)
        ensures
            r is Ok <==> self.grants_whole(PermissionKind::Read),
            r is Err ==> r == Err::<(), ErrorKind>(ErrorKind::PermissionDeny),
    {
        self.check_all(PermissionKind::Read, api_name)
    }

    pub fn check_write_all(&self, api_name: &str) -> (r: Result<(), ErrorKind>)
        ensures
            r is Ok <==> self.grants_whole(PermissionKind::Write),
            r is Err ==> r == Err::<(), ErrorKind>(ErrorKind::PermissionDeny),
    {
        self.check_all(PermissionKind::Write, api_name)
    }

    pub fn check_env_all(&self) -> (r: Result<(), ErrorKind>)
        ensures
            r is Ok <==> self.grants_whole(PermissionKind::Env),
            r is Err ==> r == Err::<(), ErrorKind>(ErrorKind::PermissionDeny),
    {
        self.check_all(PermissionKind::Env, "")
    }

    pub fn check_run_all(&self, api_name: &str) -> (r: Result<(), ErrorKind>)
        ensures
            r is Ok <==> self.grants_whole(PermissionKind::Run),
            r is Err ==> r == Err::<(), ErrorKind>(ErrorKind::PermissionDeny),
    {
        self.check_all(PermissionKind::Run, api_name)
    }

    pub fn check_sys_all(&self) -> (r: Result<(), ErrorKind>)
        ensures
            r is Ok <==> self.grants_whole(PermissionKind::Sys),
            r is Err ==> r == Err::<(), ErrorKind>(ErrorKind::PermissionDeny),
    {
        self.check_all(PermissionKind::Sys, "")
    }

    pub fn check_ffi_all(&self) -> (r: Result<(), ErrorKind>)
        ensures
            r is Ok <==> self.grants_whole(PermissionKind::Ffi),
            r is Err ==> r == Err::<(), ErrorKind>(ErrorKind::PermissionDeny),
    {
        self.check_all(PermissionKind::Ffi, "")
    }

    pub fn query_read_all(&self) -> (r: bool)
        ensures
            r == self.grants_whole(PermissionKind::Read),
    {
        self.query_all(PermissionKind::Read)
    }

    pub fn query_run_all(&self) -> (r: bool)
        ensures
            r == self.grants_whole(PermissionKind::Run),
    {
        self.query_all(PermissionKind::Run)
    }

    pub fn query_read(&self, path: Option<&str>) -> (r: PermissionState)
        ensures
            r == self.state_of_opt(PermissionKind::Read, match path { Some(x) => Some(x@), None => None }),
    {
        self.query_opt(PermissionKind::Read, path)
    }

    pub fn query_write(&self, path: Option<&str>) -> (r: PermissionState)
        ensures
            r == self.state_of_opt(PermissionKind::Write, match path { Some(x) => Some(x@), None => None }),
    {
        self.query_opt(PermissionKind::Write, path)
    }

    pub fn query_net(&self, host: Option<&str>) -> (r: PermissionState)
        ensures
            r == self.state_of_opt(PermissionKind::Net, match host { Some(x) => Some(x@), None => None }),
    {
        self.query_opt(PermissionKind::Net, host)
    }

    pub fn query_env(&self, var: Option<&str>) -> (r: PermissionState)
        ensures
            r == self.state_of_opt(PermissionKind::Env, match var { Some(x) => Some(x@), None => None }),
    {
        self.query_opt(PermissionKind::Env, var)
    }

    pub fn query_sys(&self, kind: Option<&str>) -> (r: PermissionState)
        ensures
            r == self.state_of_opt(PermissionKind::Sys, match kind { Some(x) => Some(x@), None => None }),
    {
        self.query_opt(PermissionKind::Sys, kind)
    }

    pub fn query_run(&self, cmd: Option<&str>) -> (r: PermissionState)
        ensures
            r == self.state_of_opt(PermissionKind::Run, match cmd { Some(x) => Some(x@), None => None }),
    {
        self.query_opt(PermissionKind::Run, cmd)
    }

    pub fn query_ffi(&self, path: Option<&str>) -> (r: PermissionState)
        ensures
            r == self.state_of_opt(PermissionKind::Ffi, match path { Some(x) => Some(x@), None => None }),
    {
        self.query_opt(PermissionKind::Ffi, path)
    }

    /// Withdraws grants of the class as `revoke` does.
    pub fn revoke_read(&mut self, path: Option<&str>) -> (r: PermissionState)
        ensures
            final(self).allow_all == old(self).allow_all,
            !final(self).class(PermissionKind::Read).all,
            final(self).class(PermissionKind::Read).denied@ == old(self).class(PermissionKind::Read).denied@,
            path is None ==> final(self).class(PermissionKind::Read).allowed@.len() == 0,
            path matches Some(x) ==> !listed(PermissionKind::Read, final(self).class(PermissionKind::Read).allowed@, x@),
            path matches Some(x) ==> forall|i: int|
                0 <= i < old(self).class(PermissionKind::Read).allowed@.len() && !covers(
                    PermissionKind::Read,
                    old(self).class(PermissionKind::Read).allowed@[i]@,
                    x@,
                ) ==> final(self).class(PermissionKind::Read).allowed@.contains(
                    #[trigger] old(self).class(PermissionKind::Read).allowed@[i],
                ),
            forall|k: PermissionKind| k != PermissionKind::Read ==> #[trigger] final(self).class(k) == old(self).class(k),
            r == final(self).state_of_opt(PermissionKind::Read, match path { Some(x) => Some(x@), None => None }),
    {
        self.revoke(PermissionKind::Read, path)
    }

    /// Withdraws grants of the class as `revoke` does.
    pub fn revoke_write(&mut self, path: Option<&str>) -> (r: PermissionState)
        ensures
            final(self).allow_all == old(self).allow_all,
            !final(self).class(PermissionKind::Write).all,
            final(self).class(PermissionKind::Write).denied@ == old(self).class(PermissionKind::Write).denied@,
            path is None ==> final(self).class(PermissionKind::Write).allowed@.len() == 0,
            path matches Some(x) ==> !listed(PermissionKind::Write, final(self).class(PermissionKind::Write).allowed@, x@),
            path matches Some(x) ==> forall|i: int|
                0 <= i < old(self).class(PermissionKind::Write).allowed@.len() && !covers(
                    PermissionKind::Write,
                    old(self).class(PermissionKind::Write).allowed@[i]@,
                    x@,
                ) ==> final(self).class(PermissionKind::Write).allowed@.contains(
                    #[trigger] old(self).class(PermissionKind::Write).allowed@[i],
                ),
            forall|k: PermissionKind| k != PermissionKind::Write ==> #[trigger] final(self).class(k) == old(self).class(k),
            r == final(self).state_of_opt(PermissionKind::Write, match path { Some(x) => Some(x@), None => None }),
    {
        self.revoke(PermissionKind::Write, path)
    }

    /// Withdraws grants of the class as `revoke` does.
    pub fn revoke_net(&mut self, host: Option<&str>) -> (r: PermissionState)
        ensures
            final(self).allow_all == old(self).allow_all,
            !final(self).class(PermissionKind::Net).all,
            final(self).class(PermissionKind::Net).denied@ == old(self).class(PermissionKind::Net).denied@,
            host is None ==> final(self).class(PermissionKind::Net).allowed@.len() == 0,
            host matches Some(x) ==> !listed(PermissionKind::Net, final(self).class(PermissionKind::Net).allowed@, x@),
            host matches Some(x) ==> forall|i: int|
                0 <= i < old(self).class(PermissionKind::Net).allowed@.len() && !covers(
                    PermissionKind::Net,
                    old(self).class(PermissionKind::Net).allowed@[i]@,
                    x@,
                ) ==> final(self).class(PermissionKind::Net).allowed@.contains(
                    #[trigger] old(self).class(PermissionKind::Net).allowed@[i],
                ),
            forall|k: PermissionKind| k != PermissionKind::Net ==> #[trigger] final(self).class(k) == old(self).class(k),
            r == final(self).state_of_opt(PermissionKind::Net, match host { Some(x) => Some(x@), None => None }),
    {
        self.revoke(PermissionKind::Net, host)
    }

    /// Withdraws grants of the class as `revoke` does.
    pub fn revoke_env(&mut self, var: Option<&str>) -> (r: PermissionState)
        ensures
            final(self).allow_all == old(self).allow_all,
            !final(self).class(PermissionKind::Env).all,
            final(self).class(PermissionKind::Env).denied@ == old(self).class(PermissionKind::Env).denied@,
            var is None ==> final(self).class(PermissionKind::Env).allowed@.len() == 0,
            var matches Some(x) ==> !listed(PermissionKind::Env, final(self).class(PermissionKind::Env).allowed@, x@),
            var matches Some(x) ==> forall|i: int|
                0 <= i < old(self).class(PermissionKind::Env).allowed@.len() && !covers(
                    PermissionKind::Env,
                    old(self).class(PermissionKind::Env).allowed@[i]@,
                    x@,
                ) ==> final(self).class(PermissionKind::Env).allowed@.contains(
                    #[trigger] old(self).class(PermissionKind::Env).allowed@[i],
                ),
            forall|k: PermissionKind| k != PermissionKind::Env ==> #[trigger] final(self).class(k) == old(self).class(k),
            r == final(self).state_of_opt(PermissionKind::Env, match var { Some(x) => Some(x@), None => None }),
    {
        self.revoke(PermissionKind::Env, var)
    }

    /// Withdraws grants of the class as `revoke` does.
    pub fn revoke_sys(&mut self, kind: Option<&str>) -> (r: PermissionState)
        ensures
            final(self).allow_all == old(self).allow_all,
            !final(self).class(PermissionKind::Sys).all,
            final(self).class(PermissionKind::Sys).denied@ == old(self).class(PermissionKind::Sys).denied@,
            kind is None ==> final(self).class(PermissionKind::Sys).allowed@.len() == 0,
            kind matches Some(x) ==> !listed(PermissionKind::Sys, final(self).class(PermissionKind::Sys).allowed@, x@),
            kind matches Some(x) ==> forall|i: int|
                0 <= i < old(self).class(PermissionKind::Sys).allowed@.len() && !covers(
                    PermissionKind::Sys,
                    old(self).class(PermissionKind::Sys).allowed@[i]@,
                    x@,
                ) ==> final(self).class(PermissionKind::Sys).allowed@.contains(
                    #[trigger] old(self).class(PermissionKind::Sys).allowed@[i],
                ),
            forall|k: PermissionKind| k != PermissionKind::Sys ==> #[trigger] final(self).class(k) == old(self).class(k),
            r == final(self).state_of_opt(PermissionKind::Sys, match kind { Some(x) => Some(x@), None => None }),
    {
        self.revoke(PermissionKind::Sys, kind)
    }

    /// Withdraws grants of the class as `revoke` does.
    pub fn revoke_run(&mut self, cmd: Option<&str>) -> (r: PermissionState)
        ensures
            final(self).allow_all == old(self).allow_all,
            !final(self).class(PermissionKind::Run).all,
            final(self).class(PermissionKind::Run).denied@ == old(self).class(PermissionKind::Run).denied@,
            cmd is None ==> final(self).class(PermissionKind::Run).allowed@.len() == 0,
            cmd matches Some(x) ==> !listed(PermissionKind::Run, final(self).class(PermissionKind::Run).allowed@, x@),
            cmd matches Some(x) ==> forall|i: int|
                0 <= i < old(self).class(PermissionKind::Run).allowed@.len() && !covers(
                    PermissionKind::Run,
                    old(self).class(PermissionKind::Run).allowed@[i]@,
                    x@,
                ) ==> final(self).class(PermissionKind::Run).allowed@.contains(
                    #[trigger] old(self).class(PermissionKind::Run).allowed@[i],
                ),
            forall|k: PermissionKind| k != PermissionKind::Run ==> #[trigger] final(self).class(k) == old(self).class(k),
            r == final(self).state_of_opt(PermissionKind::Run, match cmd { Some(x) => Some(x@), None => None }),
    {
        self.revoke(PermissionKind::Run, cmd)
    }

    /// Withdraws grants of the class as `revoke` does.
    pub fn revoke_ffi(&mut self, path: Option<&str>) -> (r: PermissionState)
        ensures
            final(self).allow_all == old(self).allow_all,
            !final(self).class(PermissionKind::Ffi).all,
            final(self).class(PermissionKind::Ffi).denied@ == old(self).class(PermissionKind::Ffi).denied@,
            path is None ==> final(self).class(PermissionKind::Ffi).allowed@.len() == 0,
            path matches Some(x) ==> !listed(PermissionKind::Ffi, final(self).class(PermissionKind::Ffi).allowed@, x@),
            path matches Some(x) ==> forall|i: int|
                0 <= i < old(self).class(PermissionKind::Ffi).allowed@.len() && !covers(
                    PermissionKind::Ffi,
                    old(self).class(PermissionKind::Ffi).allowed@[i]@,
                    x@,
                ) ==> final(self).class(PermissionKind::Ffi).allowed@.contains(
                    #[trigger] old(self).class(PermissionKind::Ffi).allowed@[i],
                ),
            forall|k: PermissionKind| k != PermissionKind::Ffi ==> #[trigger] final(self).class(k) == old(self).class(k),
            r == final(self).state_of_opt(PermissionKind::Ffi, match path { Some(x) => Some(x@), None => None }),
    {
        self.revoke(PermissionKind::Ffi, path)
    }
}

} // verus!
