//! Package relationship types.
//!
//! [`Relation`] models one entry in a versioned relationship field (`depends`,
//! `conflicts`, `replaces`, and deb's pre-depends/breaks). [`VirtualPackage`]
//! models one entry in `provides`, which may only be pinned to an *exact*
//! version (deb and pacman both reject `<`/`>` operators for provides).
//!
//! Versions are opaque strings: deb, rpm, pacman and apk each use their own
//! version grammar and comparison algorithm (none of them semver), so the
//! version is stored verbatim and rendered into each format as-is.
use vstd::prelude::*;
use vstd::string::*;

use crate::text::{chars_of, is_ws, trim, trim_bounds};

verus! {

/// A version-comparison operator in a [`Constraint`].
#[derive(Debug, Clone, Copy, PartialEq, Eq, Structural)]
pub enum Op {
    /// `<` (deb `<<`).
    Less,
    /// `<=`.
    LessEqual,
    /// `=`.
    Equal,
    /// `>=`.
    GreaterEqual,
    /// `>` (deb `>>`).
    Greater,
}

/// The Debian control-file spelling of an operator.
pub open spec fn deb_op(op: Op) -> Seq<char> {
    match op {
        Op::Less => seq!['<', '<'],
        Op::LessEqual => seq!['<', '='],
        Op::Equal => seq!['='],
        Op::GreaterEqual => seq!['>', '='],
        Op::Greater => seq!['>', '>'],
    }
}

/// The pacman spelling of an operator; it is also the token that the
/// parsers recognise.
pub open spec fn pacman_op(op: Op) -> Seq<char> {
    match op {
        Op::Less => seq!['<'],
        Op::LessEqual => seq!['<', '='],
        Op::Equal => seq!['='],
        Op::GreaterEqual => seq!['>', '='],
        Op::Greater => seq!['>'],
    }
}

impl Op {
    /// The Debian control-file spelling. Strict operators are doubled
    /// (`<<`/`>>`) per Debian policy.
    pub fn as_deb(self) -> (res: &'static str)
        ensures
            res@ == deb_op(self),
    {
        proof {
            reveal_strlit("<<");
            reveal_strlit("<=");
            reveal_strlit("=");
            reveal_strlit(">=");
            reveal_strlit(">>");
        }
        match self {
            Op::Less => "<<",
            Op::LessEqual => "<=",
            Op::Equal => "=",
            Op::GreaterEqual => ">=",
            Op::Greater => ">>",
        }
    }

    /// The pacman/`.PKGINFO` spelling (also used for the plain text form).
    pub fn as_pacman(self) -> (res: &'static str)
        ensures
            res@ == pacman_op(self),
    {
        proof {
            reveal_strlit("<");
            reveal_strlit("<=");
            reveal_strlit("=");
            reveal_strlit(">=");
            reveal_strlit(">");
        }
        match self {
            Op::Less => "<",
            Op::LessEqual => "<=",
            Op::Equal => "=",
            Op::GreaterEqual => ">=",
            Op::Greater => ">",
        }
    }
}

/// A version constraint: an operator paired with a version string.
#[derive(Debug, Clone, PartialEq, Eq)]
pub struct Constraint {
    pub op: Op,
    pub version: String,
}

/// One entry in a versioned relationship field: a package name with an
/// optional version [`Constraint`].
#[derive(Debug, Clone, PartialEq, Eq)]
pub struct Relation {
    pub name: String,
    pub constraint: Option<Constraint>,
}

/// One entry in the `provides` field: a virtual package name, optionally
/// pinned to an exact (`=`) version. Provides cannot use range operators.
#[derive(Debug, Clone, PartialEq, Eq)]
pub struct VirtualPackage {
    pub name: String,
    pub version: Option<String>,
}

/// Error returned when a relationship string cannot be parsed.
#[derive(Debug, Clone, Copy, PartialEq, Eq, Structural)]
pub enum RelationError {
    /// The name part was empty (e.g. `">=1.0"`).
    EmptyName,
    /// An operator was present but no version followed (e.g. `"foo>="`).
    EmptyVersion,
    /// A range operator was used where only `=` is allowed (provides).
    NonEqualProvides,
}

/// The abstract value of a [`Relation`].
pub struct RelationView {
    pub name: Seq<char>,
    pub constraint: Option<(Op, Seq<char>)>,
}

/// The abstract value of a [`VirtualPackage`].
pub struct VirtualPackageView {
    pub name: Seq<char>,
    pub version: Option<Seq<char>>,
}

impl View for Relation {
    type V = RelationView;

    open spec fn view(&self) -> RelationView {
        RelationView {
            name: self.name@,
            constraint: match self.constraint {
                Some(c) => Some((c.op, c.version@)),
                None => None,
            },
        }
    }
}

impl View for VirtualPackage {
    type V = VirtualPackageView;

    open spec fn view(&self) -> VirtualPackageView {
        VirtualPackageView {
            name: self.name@,
            version: match self.version {
                Some(v) => Some(v@),
                None => None,
            },
        }
    }
}

/// `t` occurs in `s` starting at index `i`.
pub open spec fn occurs_at(s: Seq<char>, t: Seq<char>, i: int) -> bool {
    0 <= i && i + t.len() <= s.len() && s.subrange(i, i + t.len()) == t
}

/// The first index at or after `i` where `t` occurs in `s`.
pub open spec fn find_from(s: Seq<char>, t: Seq<char>, i: int) -> Option<int>
    decreases s.len() + 1 - i,
{
    if i < 0 || i + t.len() > s.len() {
        None
    } else if occurs_at(s, t, i) {
        Some(i)
    } else {
        find_from(s, t, i + 1)
    }
}

/// The first index where `t` occurs in `s` (`str::find`).
pub open spec fn find(s: Seq<char>, t: Seq<char>) -> Option<int> {
    find_from(s, t, 0)
}

/// `str::split_once` on the token of `op`: the text before and after its
/// first occurrence.
pub open spec fn split_on(s: Seq<char>, op: Op) -> Option<(Seq<char>, Op, Seq<char>)> {
    match find(s, pacman_op(op)) {
        Some(i) => Some((s.subrange(0, i), op, s.subrange(i + pacman_op(op).len(), s.len() as int))),
        None => None,
    }
}

/// Split `s` into `(name, op, version)` on the first operator token that
/// occurs in it, trying `>=`, `<=`, `>`, `<`, `=` in that order.
pub open spec fn split_op_spec(s: Seq<char>) -> Option<(Seq<char>, Op, Seq<char>)> {
    if split_on(s, Op::GreaterEqual) is Some {
        split_on(s, Op::GreaterEqual)
    } else if split_on(s, Op::LessEqual) is Some {
        split_on(s, Op::LessEqual)
    } else if split_on(s, Op::Greater) is Some {
        split_on(s, Op::Greater)
    } else if split_on(s, Op::Less) is Some {
        split_on(s, Op::Less)
    } else {
        split_on(s, Op::Equal)
    }
}

/// What [`Relation::parse`] makes of `s`.
pub open spec fn parse_relation(s: Seq<char>) -> Result<RelationView, RelationError> {
    match split_op_spec(s) {
        Some((name, op, version)) => {
            if trim(name).len() == 0 {
                Err(RelationError::EmptyName)
            } else if trim(version).len() == 0 {
                Err(RelationError::EmptyVersion)
            } else {
                Ok(RelationView { name: trim(name), constraint: Some((op, trim(version))) })
            }
        },
        None => {
            if trim(s).len() == 0 {
                Err(RelationError::EmptyName)
            } else {
                Ok(RelationView { name: trim(s), constraint: None })
            }
        },
    }
}

/// What [`VirtualPackage::parse`] makes of `s`.
pub open spec fn parse_virtual(s: Seq<char>) -> Result<VirtualPackageView, RelationError> {
    match split_op_spec(s) {
        Some((name, op, version)) => {
            if op != Op::Equal {
                Err(RelationError::NonEqualProvides)
            } else if trim(name).len() == 0 {
                Err(RelationError::EmptyName)
            } else if trim(version).len() == 0 {
                Err(RelationError::EmptyVersion)
            } else {
                Ok(VirtualPackageView { name: trim(name), version: Some(trim(version)) })
            }
        },
        None => {
            if trim(s).len() == 0 {
                Err(RelationError::EmptyName)
            } else {
                Ok(VirtualPackageView { name: trim(s), version: None })
            }
        },
    }
}

/// The Debian rendering of a relation, e.g. `openssl (>= 3.0)`.
pub open spec fn deb_relation(r: RelationView) -> Seq<char> {
    match r.constraint {
        Some((op, v)) => r.name + " ("@ + deb_op(op) + " "@ + v + ")"@,
        None => r.name,
    }
}

/// The pacman rendering of a relation, e.g. `openssl>=3.0`.
pub open spec fn pacman_relation(r: RelationView) -> Seq<char> {
    match r.constraint {
        Some((op, v)) => r.name + pacman_op(op) + v,
        None => r.name,
    }
}

/// The Debian rendering of a virtual package, e.g. `bun (= 1.3.11)`.
pub open spec fn deb_virtual(p: VirtualPackageView) -> Seq<char> {
    match p.version {
        Some(v) => p.name + " (= "@ + v + ")"@,
        None => p.name,
    }
}

/// The pacman rendering of a virtual package, e.g. `bun=1.3.11`.
pub open spec fn pacman_virtual(p: VirtualPackageView) -> Seq<char> {
    match p.version {
        Some(v) => p.name + seq!['='] + v,
        None => p.name,
    }
}

/// The token of an operator as characters.
fn op_token(op: Op) -> (res: Vec<char>)
    ensures
        res@ == pacman_op(op),
{
    let res = match op {
        Op::Less => vec!['<'],
        Op::LessEqual => vec!['<', '='],
        Op::Equal => vec!['='],
        Op::GreaterEqual => vec!['>', '='],
        Op::Greater => vec!['>'],
    };
    assert(res@ == pacman_op(op));
    res
}

/// Whether `t` occurs in `s` at index `i`.
fn occurs_at_exec(s: &Vec<char>, t: &Vec<char>, i: usize) -> (res: bool)
    requires
        i + t@.len() <= s@.len(),
    ensures
        res == occurs_at(s@, t@, i as int),
{
    let n = s.len();
    let mut k: usize = 0;
    while k < t.len()
        invariant
            n == s@.len(),
            i + t@.len() <= s@.len(),
            k <= t@.len(),
            forall|j: int| 0 <= j < k ==> s@[i + j] == t@[j],
        decreases t@.len() - k,
    {
        if s[i + k] != t[k] {
            assert(s@.subrange(i as int, i + t@.len())[k as int] != t@[k as int]);
            return false;
        }
        k += 1;
    }
    assert(s@.subrange(i as int, i + t@.len()) == t@);
    true
}

/// Where `find_from` can land.
proof fn lemma_find_from_bounds(s: Seq<char>, t: Seq<char>, i: int)
    ensures
        find_from(s, t, i) matches Some(k) ==> i <= k && k + t.len() <= s.len() && occurs_at(s, t, k),
    decreases s.len() + 1 - i,
{
    if !(i < 0 || i + t.len() > s.len()) && !occurs_at(s, t, i) {
        lemma_find_from_bounds(s, t, i + 1);
    }
}

/// The first index where `t` occurs in `s`.
fn find_exec(s: &Vec<char>, t: &Vec<char>) -> (res: Option<usize>)
    ensures
        match res {
            Some(i) => find(s@, t@) == Some(i as int) && i + t@.len() <= s@.len(),
            None => find(s@, t@) is None,
        },
{
    if t.len() > s.len() {
        return None;
    }
    let last = s.len() - t.len();
    let mut i: usize = 0;
    while i <= last
        invariant
            last + t@.len() == s@.len(),
            find(s@, t@) == find_from(s@, t@, i as int),
        decreases last + 1 - i,
    {
        if occurs_at_exec(s, t, i) {
            return Some(i);
        }
        if i == last {
            return None;
        }
        i += 1;
    }
    None
}

/// `split_on` on indices: the end of the name and the start of the version.
fn split_on_exec(s: &Vec<char>, op: Op) -> (res: Option<(usize, usize)>)
    ensures
        match res {
            Some((i, j)) => i <= j <= s@.len() && split_on(s@, op) == Some(
                (s@.subrange(0, i as int), op, s@.subrange(j as int, s@.len() as int)),
            ),
            None => split_on(s@, op) is None,
        },
{
    let t = op_token(op);
    let n = s.len();
    proof {
        lemma_find_from_bounds(s@, t@, 0);
    }
    match find_exec(s, &t) {
        Some(i) => Some((i, i + t.len())),
        None => None,
    }
}

/// Split on the first operator token, as `split_op_spec` does.
fn split_op(s: &Vec<char>) -> (res: Option<(usize, Op, usize)>)
    ensures
        match res {
            Some((i, op, j)) => i <= j <= s@.len() && split_op_spec(s@) == Some(
                (s@.subrange(0, i as int), op, s@.subrange(j as int, s@.len() as int)),
            ),
            None => split_op_spec(s@) is None,
        },
{
    if let Some((i, j)) = split_on_exec(s, Op::GreaterEqual) {
        return Some((i, Op::GreaterEqual, j));
    }
    if let Some((i, j)) = split_on_exec(s, Op::LessEqual) {
        return Some((i, Op::LessEqual, j));
    }
    if let Some((i, j)) = split_on_exec(s, Op::Greater) {
        return Some((i, Op::Greater, j));
    }
    if let Some((i, j)) = split_on_exec(s, Op::Less) {
        return Some((i, Op::Less, j));
    }
    if let Some((i, j)) = split_on_exec(s, Op::Equal) {
        return Some((i, Op::Equal, j));
    }
    None
}

/// A `String` holding `s[a..b]` (in characters).
fn substring(s: &str, a: usize, b: usize) -> (res: String)
    requires
        a <= b <= s@.len(),
    ensures
        res@ == s@.subrange(a as int, b as int),
{
    String::from_str(s.substring_char(a, b))
}

impl Relation {
    /// Parse operator syntax like `"openssl>=3.0"` or a bare `"curl"`.
    pub fn parse(s: &str) -> (res: Result<Relation, RelationError>)
        ensures
            match (res, parse_relation(s@)) {
                (Ok(r), Ok(v)) => r@ == v,
                (Err(e), Err(f)) => e == f,
                _ => false,
            },
    {
        let cs = chars_of(s);
        match split_op(&cs) {
            Some((i, op, j)) => {
                let (na, nb) = trim_bounds(&cs, 0, i);
                let (va, vb) = trim_bounds(&cs, j, cs.len());
                if na == nb {
                    return Err(RelationError::EmptyName);
                }
                if va == vb {
                    return Err(RelationError::EmptyVersion);
                }
                Ok(Relation {
                    name: substring(s, na, nb),
                    constraint: Some(Constraint { op, version: substring(s, va, vb) }),
                })
            },
            None => {
                assert(cs@.subrange(0, cs@.len() as int) == cs@);
                let (na, nb) = trim_bounds(&cs, 0, cs.len());
                if na == nb {
                    return Err(RelationError::EmptyName);
                }
                Ok(Relation { name: substring(s, na, nb), constraint: None })
            },
        }
    }

    /// Render for a Debian control file, e.g. `openssl (>= 3.0)`.
    pub fn to_deb(&self) -> (res: String)
        ensures
            res@ == deb_relation(self@),
    {
        match &self.constraint {
            Some(c) => {
                let mut out = self.name.clone();
                out.append(" (");
                out.append(c.op.as_deb());
                out.append(" ");
                out.append(c.version.as_str());
                out.append(")");
                out
            },
            None => self.name.clone(),
        }
    }

    /// Render for a pacman `.PKGINFO`, e.g. `openssl>=3.0`.
    pub fn to_pacman(&self) -> (res: String)
        ensures
            res@ == pacman_relation(self@),
    {
        match &self.constraint {
            Some(c) => {
                let mut out = self.name.clone();
                out.append(c.op.as_pacman());
                out.append(c.version.as_str());
                out
            },
            None => self.name.clone(),
        }
    }
}

impl VirtualPackage {
    /// Parse `"name"` or an exact `"name=1.0"`. Range operators are rejected.
    pub fn parse(s: &str) -> (res: Result<VirtualPackage, RelationError>)
        ensures
            match (res, parse_virtual(s@)) {
                (Ok(p), Ok(v)) => p@ == v,
                (Err(e), Err(f)) => e == f,
                _ => false,
            },
    {
        let cs = chars_of(s);
        match split_op(&cs) {
            Some((_, op, _)) if op != Op::Equal => Err(RelationError::NonEqualProvides),
            Some((i, _, j)) => {
                let (na, nb) = trim_bounds(&cs, 0, i);
                let (va, vb) = trim_bounds(&cs, j, cs.len());
                if na == nb {
                    return Err(RelationError::EmptyName);
                }
                if va == vb {
                    return Err(RelationError::EmptyVersion);
                }
                Ok(VirtualPackage { name: substring(s, na, nb), version: Some(substring(s, va, vb)) })
            },
            None => {
                assert(cs@.subrange(0, cs@.len() as int) == cs@);
                let (na, nb) = trim_bounds(&cs, 0, cs.len());
                if na == nb {
                    return Err(RelationError::EmptyName);
                }
                Ok(VirtualPackage { name: substring(s, na, nb), version: None })
            },
        }
    }

    /// Render for a Debian control file, e.g. `bun (= 1.3.11)`.
    pub fn to_deb(&self) -> (res: String)
        ensures
            res@ == deb_virtual(self@),
    {
        match &self.version {
            Some(v) => {
                let mut out = self.name.clone();
                out.append(" (= ");
                out.append(v.as_str());
                out.append(")");
                out
            },
            None => self.name.clone(),
        }
    }

    /// Render for a pacman `.PKGINFO`, e.g. `bun=1.3.11`.
    pub fn to_pacman(&self) -> (res: String)
        ensures
            res@ == pacman_virtual(self@),
    {
        match &self.version {
            Some(v) => {
                let mut out = self.name.clone();
                proof {
                    reveal_strlit("=");
                }
                out.append("=");
                out.append(v.as_str());
                out
            },
            None => self.name.clone(),
        }
    }
}

impl RelationError {
    /// The message that describes the error.
    pub fn to_string(&self) -> (res: String)
        ensures
            res@ == match *self {
                RelationError::EmptyName => "relationship has no package name"@,
                RelationError::EmptyVersion => "relationship has no version after operator"@,
                RelationError::NonEqualProvides => "provides may only use '=' (no '<' or '>')"@,
            },
    {
        match self {
            RelationError::EmptyName => String::from_str("relationship has no package name"),
            RelationError::EmptyVersion => String::from_str(
                "relationship has no version after operator",
            ),
            RelationError::NonEqualProvides => String::from_str(
                "provides may only use '=' (no '<' or '>')",
            ),
        }
    }
}

/// No operator character occurs in `x`.
pub open spec fn free_of_operators(x: Seq<char>) -> bool {
    forall|i: int| 0 <= i < x.len() ==> x[i] != '<' && x[i] != '>' && x[i] != '='
}

/// `x` is a name or version that survives rendering and parsing unchanged:
/// non-empty, no surrounding whitespace and no operator characters.
pub open spec fn is_plain_token(x: Seq<char>) -> bool {
    &&& x.len() > 0
    &&& !is_ws(x[0])
    &&& !is_ws(x.last())
    &&& free_of_operators(x)
}

proof fn lemma_find_from_first(s: Seq<char>, t: Seq<char>, i: int, k: int)
    requires
        0 <= i <= k,
        occurs_at(s, t, k),
        forall|j: int| i <= j < k ==> !occurs_at(s, t, j),
    ensures
        find_from(s, t, i) == Some(k),
    decreases k - i,
{
    if i < k {
        lemma_find_from_first(s, t, i + 1, k);
    }
}

proof fn lemma_find_from_none(s: Seq<char>, t: Seq<char>, i: int)
    requires
        0 <= i,
        forall|j: int| i <= j ==> !occurs_at(s, t, j),
    ensures
        find_from(s, t, i) is None,
    decreases s.len() + 1 - i,
{
    if !(i + t.len() > s.len()) {
        lemma_find_from_none(s, t, i + 1);
    }
}

proof fn lemma_trim_plain(x: Seq<char>)
    requires
        x.len() > 0,
        !is_ws(x[0]),
        !is_ws(x.last()),
    ensures
        trim(x) == x,
{
}

/// In `name + tok + ver` with operator-free `name` and `ver`, the token
/// `t` (which starts with an operator character) can only occur inside `tok`.
proof fn lemma_occurs_only_in_token(name: Seq<char>, tok: Seq<char>, ver: Seq<char>, t: Seq<char>, j: int)
    requires
        free_of_operators(name),
        free_of_operators(ver),
        t.len() > 0,
        t[0] == '<' || t[0] == '>' || t[0] == '=',
        occurs_at(name + tok + ver, t, j),
    ensures
        name.len() <= j < name.len() + tok.len(),
{
    let s = name + tok + ver;
    assert(s[j] == s.subrange(j, j + t.len())[0]);
    if j < name.len() {
        assert(s[j] == name[j]);
    }
    if j >= name.len() + tok.len() {
        assert(s[j] == ver[j - name.len() - tok.len()]);
    }
}

/// Rendering a relation in pacman syntax and parsing the text again gives
/// the same relation back, when its name and version are plain tokens.
pub proof fn lemma_relation_pacman_roundtrip(r: RelationView)
    requires
        is_plain_token(r.name),
        r.constraint matches Some((op, v)) ==> is_plain_token(v),
    ensures
        parse_relation(pacman_relation(r)) == Ok::<RelationView, RelationError>(r),
{
    lemma_trim_plain(r.name);
    match r.constraint {
        None => {
            let s = r.name;
            assert forall|op: Op| #![auto] split_on(s, op) is None by {
                let t = pacman_op(op);
                assert forall|j: int| 0 <= j implies !occurs_at(s, t, j) by {
                    if occurs_at(s, t, j) {
                        assert(s[j] == s.subrange(j, j + t.len())[0]);
                    }
                }
                lemma_find_from_none(s, t, 0);
            }
        },
        Some((op, v)) => {
            lemma_trim_plain(v);
            split_roundtrip(r.name, op, v);
        },
    }
}

/// With operator-free `name` and `ver` (the latter not starting with `=`),
/// `split_op_spec` splits `name + op + ver` back into its parts.
proof fn split_roundtrip(name: Seq<char>, op: Op, ver: Seq<char>)
    requires
        free_of_operators(name),
        free_of_operators(ver),
        ver.len() > 0,
    ensures
        split_op_spec(name + pacman_op(op) + ver) == Some((name, op, ver)),
{
    let tok = pacman_op(op);
    let s = name + tok + ver;
    let n = name.len() as int;
    assert(s[n] == tok[0]);
    assert(s[n + tok.len()] == ver[0]);
    if tok.len() == 2 {
        assert(s[n + 1] == tok[1]);
    }
    assert(s.subrange(n, n + tok.len()) == tok);
    assert(s.subrange(0, n) == name);
    assert(s.subrange(n + tok.len(), s.len() as int) == ver);
    // every operator tried before `op` does not occur; `op` occurs at `n` first
    assert forall|o: Op| #![auto] split_on(s, o) == (if o == op {
        Some((name, op, ver))
    } else if occurs_at(s, pacman_op(o), n) || occurs_at(s, pacman_op(o), n + 1) {
        split_on(s, o)
    } else {
        None
    }) by {
        let t = pacman_op(o);
        assert forall|j: int| 0 <= j < n implies !occurs_at(s, t, j) by {
            if occurs_at(s, t, j) {
                lemma_occurs_only_in_token(name, tok, ver, t, j);
            }
        }
        if occurs_at(s, t, n) {
            lemma_find_from_first(s, t, 0, n);
        } else if !occurs_at(s, t, n + 1) {
            assert forall|j: int| 0 <= j implies !occurs_at(s, t, j) by {
                if occurs_at(s, t, j) {
                    lemma_occurs_only_in_token(name, tok, ver, t, j);
                }
            }
            lemma_find_from_none(s, t, 0);
        }
    }
    // which tokens occur at `n`
    match op {
        Op::GreaterEqual => {},
        Op::LessEqual => {
            assert(!occurs_at(s, pacman_op(Op::GreaterEqual), n)) by {
                assert(s.subrange(n, n + 2)[0] == '<');
            }
            assert(!occurs_at(s, pacman_op(Op::GreaterEqual), n + 1)) by {
                assert(s.subrange(n + 1, n + 3)[0] == '=');
            }
        },
        Op::Greater => {
            assert(!occurs_at(s, pacman_op(Op::GreaterEqual), n)) by {
                assert(s.subrange(n, n + 2)[1] == ver[0]);
            }
            assert(!occurs_at(s, pacman_op(Op::LessEqual), n)) by {
                assert(s.subrange(n, n + 2)[0] == '>');
            }
        },
        Op::Less => {
            assert(!occurs_at(s, pacman_op(Op::GreaterEqual), n)) by {
                assert(s.subrange(n, n + 2)[0] == '<');
            }
            assert(!occurs_at(s, pacman_op(Op::LessEqual), n)) by {
                assert(s.subrange(n, n + 2)[1] == ver[0]);
            }
            assert(!occurs_at(s, pacman_op(Op::Greater), n)) by {
                assert(s.subrange(n, n + 1)[0] == '<');
            }
        },
        Op::Equal => {
            assert(!occurs_at(s, pacman_op(Op::GreaterEqual), n)) by {
                assert(s.subrange(n, n + 2)[0] == '=');
            }
            assert(!occurs_at(s, pacman_op(Op::LessEqual), n)) by {
                assert(s.subrange(n, n + 2)[0] == '=');
            }
            assert(!occurs_at(s, pacman_op(Op::Greater), n)) by {
                assert(s.subrange(n, n + 1)[0] == '=');
            }
            assert(!occurs_at(s, pacman_op(Op::Less), n)) by {
                assert(s.subrange(n, n + 1)[0] == '=');
            }
        },
    }
}

/// Rendering a virtual package in pacman syntax and parsing the text again
/// gives the same virtual package back, when its name and version are plain
/// tokens.
pub proof fn lemma_virtual_pacman_roundtrip(p: VirtualPackageView)
    requires
        is_plain_token(p.name),
        p.version matches Some(v) ==> is_plain_token(v),
    ensures
        parse_virtual(pacman_virtual(p)) == Ok::<VirtualPackageView, RelationError>(p),
{
    let r = RelationView {
        name: p.name,
        constraint: match p.version {
            Some(v) => Some((Op::Equal, v)),
            None => None,
        },
    };
    lemma_relation_pacman_roundtrip(r);
    assert(pacman_virtual(p) == pacman_relation(r));
}

/// The relation that a provided virtual package stands for: `name` alone,
/// or `name = version`.
pub open spec fn virtual_relation(p: VirtualPackageView) -> RelationView {
    RelationView {
        name: p.name,
        constraint: match p.version {
            Some(v) => Some((Op::Equal, v)),
            None => None,
        },
    }
}

/// A provides entry parses exactly as a relation whose operator, if any,
/// is `=`: where one parses, the other gives the same name and version;
/// a relation with another operator is refused as a provides entry.
pub proof fn lemma_virtual_is_equal_relation(s: Seq<char>)
    ensures
        parse_virtual(s) matches Ok(p) ==> parse_relation(s) == Ok::<RelationView, RelationError>(virtual_relation(p)),
        parse_relation(s) matches Ok(r) ==> match r.constraint {
            None => parse_virtual(s) == Ok::<VirtualPackageView, RelationError>(
                VirtualPackageView { name: r.name, version: None },
            ),
            Some((op, v)) => if op == Op::Equal {
                parse_virtual(s) == Ok::<VirtualPackageView, RelationError>(
                    VirtualPackageView { name: r.name, version: Some(v) },
                )
            } else {
                parse_virtual(s) == Err::<VirtualPackageView, RelationError>(RelationError::NonEqualProvides)
            },
        },
{
}

} // verus!
