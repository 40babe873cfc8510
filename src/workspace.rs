use crate::text::{decimal, ends_with, lemma_parse_decimal, parse_usize, parse_usize_in, push_decimal, starts_with};
use vstd::prelude::*;
use vstd::seq_lib::to_multiset_insert;
use vstd::string::StrSliceExecFns;
use vstd::string::StringExecFns;

verus! {

/// Name of the public key package file.
pub open spec fn public_key_name() -> Seq<char> {
    "key.pub"@
}

/// Name of the signing key share file of participant `i`.
pub open spec fn signing_key_name(i: nat) -> Seq<char> {
    "key."@ + decimal(i)
}

/// Name of the round-1 nonces file of participant `i`.
pub open spec fn nonces_name(i: nat) -> Seq<char> {
    "round1."@ + decimal(i) + ".nonces"@
}

/// Name of the round-1 commitments file of participant `i`.
pub open spec fn commitments_name(i: nat) -> Seq<char> {
    "round1."@ + decimal(i) + ".commitments"@
}

/// Name of the signing package file.
pub open spec fn signing_package_name() -> Seq<char> {
    "round1"@
}

/// Name of the round-2 signature share file of participant `i`.
pub open spec fn signature_share_name(i: nat) -> Seq<char> {
    "round2."@ + decimal(i)
}

/// Name of the aggregate signature file.
pub open spec fn signature_name() -> Seq<char> {
    "round2"@
}

/// The participant index a commitments file name carries, if `name` is one.
pub open spec fn commitments_index(name: Seq<char>) -> Option<usize> {
    let p = "round1."@;
    let q = ".commitments"@;
    if p.len() + q.len() <= name.len() && name.take(p.len() as int) == p && name.skip(
        name.len() - q.len(),
    ) == q {
        parse_usize(name.subrange(p.len() as int, name.len() - q.len()))
    } else {
        None
    }
}

/// The participant index a signature share file name carries, if `name` is
/// one.
pub open spec fn signature_share_index(name: Seq<char>) -> Option<usize> {
    let p = "round2."@;
    if p.len() <= name.len() && name.take(p.len() as int) == p {
        parse_usize(name.skip(p.len() as int))
    } else {
        None
    }
}

/// An artifact of the ceremony, singleton or per participant.
#[derive(Clone, Copy, Debug, PartialEq, Eq, Structural)]
pub enum Artifact {
    /// The public key package.
    PublicKey,
    /// A participant's signing key share.
    SigningKey(usize),
    /// A participant's round-1 nonces.
    Nonces(usize),
    /// A participant's round-1 commitments.
    Commitments(usize),
    /// The signing package.
    SigningPackage,
    /// A participant's round-2 signature share.
    SignatureShare(usize),
    /// The aggregate signature.
    Signature,
}

/// The file name of artifact `a`.
pub open spec fn artifact_name(a: Artifact) -> Seq<char> {
    match a {
        Artifact::PublicKey => public_key_name(),
        Artifact::SigningKey(i) => signing_key_name(i as nat),
        Artifact::Nonces(i) => nonces_name(i as nat),
        Artifact::Commitments(i) => commitments_name(i as nat),
        Artifact::SigningPackage => signing_package_name(),
        Artifact::SignatureShare(i) => signature_share_name(i as nat),
        Artifact::Signature => signature_name(),
    }
}

impl Artifact {
    /// The file name of the artifact.
    pub fn name(&self) -> (r: String)
        ensures
            r@ == artifact_name(*self),
    {
        proof {
            reveal_strlit("key.pub");
            reveal_strlit("round1");
            reveal_strlit("round2");
        }
        match *self {
            Artifact::PublicKey => String::from_str("key.pub"),
            Artifact::SigningKey(i) => signing_key_file(i),
            Artifact::Nonces(i) => nonces_file(i),
            Artifact::Commitments(i) => commitments_file(i),
            Artifact::SigningPackage => String::from_str("round1"),
            Artifact::SignatureShare(i) => signature_share_file(i),
            Artifact::Signature => String::from_str("round2"),
        }
    }
}

/// The per-participant artifacts that can be enumerated.
#[derive(Clone, Copy, Debug, PartialEq, Eq, Structural)]
pub enum Listing {
    /// Round-1 commitments files.
    Commitments,
    /// Round-2 signature share files.
    SignatureShares,
}

/// The index that `name` carries as a file of kind `kind`, if it is one.
pub open spec fn index_in(kind: Listing, name: Seq<char>) -> Option<usize> {
    match kind {
        Listing::Commitments => commitments_index(name),
        Listing::SignatureShares => signature_share_index(name),
    }
}

/// `name` within the directory `dir`.
pub open spec fn joined(dir: Seq<char>, name: Seq<char>) -> Seq<char> {
    if dir.len() == 0 || dir.last() == '/' {
        dir + name
    } else {
        dir + "/"@ + name
    }
}

/// The entries of kind `kind` among `names`, in the order given, each with
/// its index and its path within `dir`.
pub open spec fn listed(kind: Listing, dir: Seq<char>, names: Seq<Seq<char>>) -> Seq<
    (usize, Seq<char>),
>
    decreases names.len(),
{
    if names.len() == 0 {
        seq![]
    } else {
        let rest = listed(kind, dir, names.drop_last());
        match index_in(kind, names.last()) {
            Some(i) => rest.push((i, joined(dir, names.last()))),
            None => rest,
        }
    }
}

/// The views of index and path pairs.
pub open spec fn entry_views(v: Seq<(usize, String)>) -> Seq<(usize, Seq<char>)> {
    v.map_values(|e: (usize, String)| (e.0, e.1@))
}

/// The views of a sequence of strings.
pub open spec fn string_views(v: Seq<String>) -> Seq<Seq<char>> {
    v.map_values(|s: String| s@)
}

/// Whether the entries are ordered by index, ascending.
pub open spec fn sorted_by_index(v: Seq<(usize, Seq<char>)>) -> bool {
    forall|a: int, b: int| 0 <= a < b < v.len() ==> v[a].0 <= v[b].0
}

/// An entry of `listed` is a name of `names`, of the kind, in `dir`.
pub proof fn lemma_listed_member(kind: Listing, dir: Seq<char>, names: Seq<Seq<char>>, k: int)
    requires
        0 <= k < listed(kind, dir, names).len(),
    ensures
        exists|j: int|
            0 <= j < names.len() && index_in(kind, #[trigger] names[j]) == Some(
                listed(kind, dir, names)[k].0,
            ) && listed(kind, dir, names)[k].1 == joined(dir, names[j]),
    decreases names.len(),
{
    let rest = listed(kind, dir, names.drop_last());
    if k < rest.len() {
        lemma_listed_member(kind, dir, names.drop_last(), k);
        let j = choose|j: int|
            0 <= j < names.drop_last().len() && index_in(kind, #[trigger] names.drop_last()[j])
                == Some(rest[k].0) && rest[k].1 == joined(dir, names.drop_last()[j]);
        assert(names[j] == names.drop_last()[j]);
    } else {
        assert(names[names.len() - 1] == names.last());
    }
}

/// Every name of `names` of the kind has an entry in `listed`.
pub proof fn lemma_listed_complete(kind: Listing, dir: Seq<char>, names: Seq<Seq<char>>, j: int)
    requires
        0 <= j < names.len(),
        index_in(kind, names[j]) is Some,
    ensures
        listed(kind, dir, names).contains((index_in(kind, names[j])->0, joined(dir, names[j]))),
    decreases names.len(),
{
    let rest = listed(kind, dir, names.drop_last());
    if j < names.len() - 1 {
        assert(names.drop_last()[j] == names[j]);
        lemma_listed_complete(kind, dir, names.drop_last(), j);
        let k = choose|k: int| 0 <= k < rest.len() && rest[k] == (index_in(kind, names[j])->0, joined(dir, names[j]));
        assert(listed(kind, dir, names)[k] == rest[k]);
    } else {
        let l = listed(kind, dir, names);
        assert(l[l.len() - 1] == (index_in(kind, names[j])->0, joined(dir, names[j])));
    }
}

/// Parsing the name of a commitments file gives its index back.
pub proof fn lemma_commitments_index(i: usize)
    ensures
        commitments_index(commitments_name(i as nat)) == Some(i),
{
    reveal_strlit("round1.");
    reveal_strlit(".commitments");
    lemma_parse_decimal(i);
    let n = commitments_name(i as nat);
    let d = decimal(i as nat);
    assert(n.take(7) =~= "round1."@);
    assert(n.skip(n.len() - 12) =~= ".commitments"@);
    assert(n.subrange(7, n.len() - 12) =~= d);
}

/// Parsing the name of a signature share file gives its index back.
pub proof fn lemma_signature_share_index(i: usize)
    ensures
        signature_share_index(signature_share_name(i as nat)) == Some(i),
{
    reveal_strlit("round2.");
    lemma_parse_decimal(i);
    let n = signature_share_name(i as nat);
    assert(n.take(7) =~= "round2."@);
    assert(n.skip(7) =~= decimal(i as nat));
}

/// Files of one kind are never taken for those of another: the names of the
/// other artifacts carry no commitments or signature share index, and the
/// per-participant names differ from one another.
pub proof fn lemma_names_distinct(i: nat, j: nat)
    ensures
        commitments_index(public_key_name()) is None,
        commitments_index(signing_key_name(j)) is None,
        commitments_index(nonces_name(j)) is None,
        commitments_index(signing_package_name()) is None,
        commitments_index(signature_share_name(j)) is None,
        commitments_index(signature_name()) is None,
        signature_share_index(public_key_name()) is None,
        signature_share_index(signing_key_name(j)) is None,
        signature_share_index(nonces_name(j)) is None,
        signature_share_index(commitments_name(j)) is None,
        signature_share_index(signing_package_name()) is None,
        signature_share_index(signature_name()) is None,
        signing_key_name(i) != nonces_name(j),
        signing_key_name(i) != signature_share_name(j),
        signing_key_name(i) != public_key_name(),
        nonces_name(i) != signature_share_name(j),
        nonces_name(i) != commitments_name(j),
        signing_package_name() != nonces_name(j),
        signature_name() != signature_share_name(j),
{
    reveal_strlit("key.pub");
    reveal_strlit("key.");
    reveal_strlit("round1.");
    reveal_strlit("round2.");
    reveal_strlit(".nonces");
    reveal_strlit(".commitments");
    reveal_strlit("round1");
    reveal_strlit("round2");
    crate::text::lemma_decimal(i);
    crate::text::lemma_decimal(j);
    let di = decimal(i);
    // names of different kinds differ in a character near their start or
    // their end, or in their length
    assert(public_key_name()[0] == 'k');
    assert(signing_key_name(j)[0] == 'k');
    assert(nonces_name(j)[6] == '.');
    let nj = nonces_name(j);
    assert(nj.skip(nj.len() - 12).len() == 12);
    if nj.len() >= 19 && nj.skip(nj.len() - 12) == ".commitments"@ {
        assert(nj[nj.len() - 1] == 's');
        assert(nj[nj.len() - 2] == 'e');
        assert(nj.skip(nj.len() - 12)[10] == nj[nj.len() - 2]);
    }
    assert(signature_share_name(j)[5] == '2');
    assert(commitments_name(j)[5] == '1');
    assert(nonces_name(j)[5] == '1');
    assert(signing_key_name(i)[0] != nonces_name(j)[0]);
    assert(signing_key_name(i)[0] != signature_share_name(j)[0]);
    assert(signing_key_name(i).len() == 4 + di.len());
    if signing_key_name(i) == public_key_name() {
        assert(signing_key_name(i)[4] == 'p');
        assert(crate::text::is_digit(di[0]));
    }
    assert(nonces_name(i)[5] != signature_share_name(j)[5]);
    let ni = nonces_name(i);
    let cj = commitments_name(j);
    if ni == cj {
        assert(ni[ni.len() - 1] == 's');
        assert(cj[cj.len() - 1] == 's');
        assert(ni[ni.len() - 2] == 'e');
        assert(cj[cj.len() - 2] == 't');
    }
    assert(signing_package_name().len() == 6);
    assert(signature_name().len() == 6);
    assert(signature_share_name(j).len() > 6);
}

/// Different participants have different key share files.
pub proof fn lemma_signing_key_name_injective(i: nat, j: nat)
    requires
        signing_key_name(i) == signing_key_name(j),
    ensures
        i == j,
{
    reveal_strlit("key.");
    let a = signing_key_name(i);
    let b = signing_key_name(j);
    assert(a.skip(4) =~= decimal(i));
    assert(b.skip(4) =~= decimal(j));
    crate::text::lemma_decimal(i);
    crate::text::lemma_decimal(j);
}

/// Listing distinct names in the empty directory gives each name once.
pub proof fn lemma_listed_distinct(kind: Listing, names: Seq<Seq<char>>)
    requires
        forall|a: int, b: int| 0 <= a < b < names.len() ==> names[a] != names[b],
    ensures
        forall|a: int, b: int|
            0 <= a < b < listed(kind, Seq::empty(), names).len() ==> listed(
                kind,
                Seq::empty(),
                names,
            )[a].1 != listed(kind, Seq::empty(), names)[b].1,
    decreases names.len(),
{
    if names.len() > 0 {
        let e = Seq::<char>::empty();
        let init = names.drop_last();
        lemma_listed_distinct(kind, init);
        let rest = listed(kind, e, init);
        let l = listed(kind, e, names);
        assert forall|n: Seq<char>| joined(e, n) == n by {
            assert(e + n =~= n);
        }
        assert forall|a: int| 0 <= a < rest.len() implies rest[a].1 != names.last() by {
            lemma_listed_member(kind, e, init, a);
            let m = choose|m: int|
                0 <= m < init.len() && index_in(kind, #[trigger] init[m]) == Some(rest[a].0)
                    && rest[a].1 == joined(e, init[m]);
            assert(init[m] == names[m]);
        }
        assert forall|a: int, b: int| 0 <= a < b < l.len() implies l[a].1 != l[b].1 by {
            if b < rest.len() {
                assert(l[a] == rest[a] && l[b] == rest[b]);
            } else {
                assert(l[a] == rest[a]);
                assert(l[b].1 == joined(e, names.last()));
            }
        }
    }
}

/// Different participants have different nonces files.
pub proof fn lemma_nonces_name_injective(i: nat, j: nat)
    requires
        nonces_name(i) == nonces_name(j),
    ensures
        i == j,
{
    reveal_strlit("round1.");
    reveal_strlit(".nonces");
    let a = nonces_name(i);
    let b = nonces_name(j);
    assert(a.subrange(7, a.len() - 7) =~= decimal(i));
    assert(b.subrange(7, b.len() - 7) =~= decimal(j));
    crate::text::lemma_decimal(i);
    crate::text::lemma_decimal(j);
}

/// The singleton files are not per-participant files.
pub proof fn lemma_singletons_distinct(i: nat)
    ensures
        public_key_name() != signature_share_name(i),
        public_key_name() != nonces_name(i),
        signing_package_name() != signature_share_name(i),
        signing_package_name() != nonces_name(i),
        signing_package_name() != signing_key_name(i),
{
    reveal_strlit("key.pub");
    reveal_strlit("key.");
    reveal_strlit("round1.");
    reveal_strlit("round2.");
    reveal_strlit(".nonces");
    reveal_strlit("round1");
    assert(public_key_name()[0] != signature_share_name(i)[0]);
    assert(public_key_name()[0] != nonces_name(i)[0]);
    assert(signing_package_name().len() < signature_share_name(i).len());
    assert(signing_package_name().len() < nonces_name(i).len());
    assert(signing_package_name()[0] != signing_key_name(i)[0]);
}

/// A workspace directory where the ceremony's artifacts live.
pub struct Root {
    dir: String,
}

impl View for Root {
    type V = Seq<char>;

    closed spec fn view(&self) -> Seq<char> {
        self.dir@
    }
}

impl Default for Root {
    /// The workspace `.frost` in the working directory.
    fn default() -> (r: Root)
        ensures
            r@ == ".frost"@,
    {
        Root { dir: String::from_str(".frost") }
    }
}

impl Root {
    /// The workspace in directory `dir`.
    pub fn new(dir: String) -> (r: Root)
        ensures
            r@ == dir@,
    {
        Root { dir }
    }

    /// The workspace directory.
    pub fn dir(&self) -> (r: &str)
        ensures
            r@ == self@,
    {
        self.dir.as_str()
    }

    /// The path of the file `name` in the workspace.
    pub fn path(&self, name: &str) -> (r: String)
        ensures
            r@ == joined(self@, name@),
    {
        let mut r = self.dir.clone();
        let n = r.as_str().unicode_len();
        if n != 0 && r.as_str().get_char(n - 1) != '/' {
            r.append("/");
        }
        r.append(name);
        r
    }

    /// Path of artifact `a`.
    pub fn path_for(&self, a: Artifact) -> (r: String)
        ensures
            r@ == joined(self@, artifact_name(a)),
    {
        self.path(a.name().as_str())
    }

    /// Path of the public key package.
    pub fn public_key(&self) -> (r: String)
        ensures
            r@ == joined(self@, public_key_name()),
    {
        self.path("key.pub")
    }

    /// Path of the signing key share of participant `index`.
    pub fn signing_key(&self, index: usize) -> (r: String)
        ensures
            r@ == joined(self@, signing_key_name(index as nat)),
    {
        self.path(signing_key_file(index).as_str())
    }

    /// Path of the round-1 nonces of participant `index`.
    pub fn nonces(&self, index: usize) -> (r: String)
        ensures
            r@ == joined(self@, nonces_name(index as nat)),
    {
        self.path(nonces_file(index).as_str())
    }

    /// Path of the round-1 commitments of participant `index`.
    pub fn commitments(&self, index: usize) -> (r: String)
        ensures
            r@ == joined(self@, commitments_name(index as nat)),
    {
        self.path(commitments_file(index).as_str())
    }

    /// Path of the signing package.
    pub fn signing_package(&self) -> (r: String)
        ensures
            r@ == joined(self@, signing_package_name()),
    {
        self.path("round1")
    }

    /// Path of the round-2 signature share of participant `index`.
    pub fn signature_share(&self, index: usize) -> (r: String)
        ensures
            r@ == joined(self@, signature_share_name(index as nat)),
    {
        self.path(signature_share_file(index).as_str())
    }

    /// Path of the aggregate signature.
    pub fn signature(&self) -> (r: String)
        ensures
            r@ == joined(self@, signature_name()),
    {
        self.path("round2")
    }

    /// The commitments files among the directory entries `names`, with
    /// their indices and paths, ordered by index.
    pub fn all_commitments(&self, names: &Vec<String>) -> (r: Vec<(usize, String)>)
        ensures
            sorted_by_index(entry_views(r@)),
            entry_views(r@).to_multiset() == listed(
                Listing::Commitments,
                self@,
                string_views(names@),
            ).to_multiset(),
    {
        self.list(Listing::Commitments, names)
    }

    /// The signature share files among the directory entries `names`, with
    /// their indices and paths, ordered by index.
    pub fn all_signature_shares(&self, names: &Vec<String>) -> (r: Vec<(usize, String)>)
        ensures
            sorted_by_index(entry_views(r@)),
            entry_views(r@).to_multiset() == listed(
                Listing::SignatureShares,
                self@,
                string_views(names@),
            ).to_multiset(),
    {
        self.list(Listing::SignatureShares, names)
    }

    /// The files of kind `kind` among the directory entries `names`, with
    /// their indices and paths, ordered by index.
    pub fn list(&self, kind: Listing, names: &Vec<String>) -> (r: Vec<(usize, String)>)
        ensures
            sorted_by_index(entry_views(r@)),
            entry_views(r@).to_multiset() == listed(kind, self@, string_views(names@)).to_multiset(),
    {
        let mut found: Vec<(usize, String)> = Vec::new();
        let mut i: usize = 0;
        while i < names.len()
            invariant
                i <= names@.len(),
                entry_views(found@) == listed(kind, self@, string_views(names@).take(i as int)),
            decreases names.len() - i,
        {
            let ghost before = found@;
            let name = names[i].as_str();
            let idx = index_of(kind, name);
            let ghost ns = string_views(names@).take(i + 1);
            assert(ns.drop_last() =~= string_views(names@).take(i as int));
            assert(ns.last() == name@);
            if let Some(k) = idx {
                found.push((k, self.path(name)));
                assert(entry_views(found@) =~= entry_views(before).push((k, joined(self@, name@))));
            }
            i = i + 1;
        }
        assert(string_views(names@).take(names@.len() as int) =~= string_views(names@));
        sort_by_index(found)
    }
}

/// The index `name` carries as a file of kind `kind`.
pub fn index_of(kind: Listing, name: &str) -> (r: Option<usize>)
    ensures
        r == index_in(kind, name@),
{
    match kind {
        Listing::Commitments => commitments_file_index(name),
        Listing::SignatureShares => signature_share_file_index(name),
    }
}

/// The index a commitments file name carries.
pub fn commitments_file_index(name: &str) -> (r: Option<usize>)
    ensures
        r == commitments_index(name@),
{
    let p = "round1.";
    let q = ".commitments";
    proof {
        reveal_strlit("round1.");
        reveal_strlit(".commitments");
    }
    let n = name.unicode_len();
    if n < 19 || !starts_with(name, p) || !ends_with(name, q) {
        return None;
    }
    parse_usize_in(name, 7, n - 12)
}

/// The index a signature share file name carries.
pub fn signature_share_file_index(name: &str) -> (r: Option<usize>)
    ensures
        r == signature_share_index(name@),
{
    let p = "round2.";
    proof {
        reveal_strlit("round2.");
    }
    let n = name.unicode_len();
    if n < 7 || !starts_with(name, p) {
        return None;
    }
    let r = parse_usize_in(name, 7, n);
    assert(name@.subrange(7, n as int) =~= name@.skip(7));
    r
}

/// The name of the signing key share file of participant `index`.
pub fn signing_key_file(index: usize) -> (r: String)
    ensures
        r@ == signing_key_name(index as nat),
{
    let mut s = String::from_str("key.");
    push_decimal(&mut s, index);
    s
}

/// The name of the nonces file of participant `index`.
pub fn nonces_file(index: usize) -> (r: String)
    ensures
        r@ == nonces_name(index as nat),
{
    let mut s = String::from_str("round1.");
    push_decimal(&mut s, index);
    s.append(".nonces");
    s
}

/// The name of the commitments file of participant `index`.
pub fn commitments_file(index: usize) -> (r: String)
    ensures
        r@ == commitments_name(index as nat),
{
    let mut s = String::from_str("round1.");
    push_decimal(&mut s, index);
    s.append(".commitments");
    s
}

/// The name of the signature share file of participant `index`.
pub fn signature_share_file(index: usize) -> (r: String)
    ensures
        r@ == signature_share_name(index as nat),
{
    let mut s = String::from_str("round2.");
    push_decimal(&mut s, index);
    s
}

/// Orders index and path pairs by index, ascending.
fn sort_by_index(v: Vec<(usize, String)>) -> (r: Vec<(usize, String)>)
    ensures
        sorted_by_index(entry_views(r@)),
        entry_views(r@).to_multiset() == entry_views(v@).to_multiset(),
{
    let mut v = v;
    let mut out: Vec<(usize, String)> = Vec::new();
    let ghost all = entry_views(v@).to_multiset();
    proof {
        broadcast use vstd::seq_lib::group_to_multiset_ensures;
        assert(entry_views(out@) =~= Seq::<(usize, Seq<char>)>::empty());
    }
    while v.len() > 0
        invariant
            sorted_by_index(entry_views(out@)),
            entry_views(out@).to_multiset().add(entry_views(v@).to_multiset()) == all,
        decreases v.len(),
    {
        broadcast use vstd::seq_lib::group_to_multiset_ensures;

        let ghost v_before = v@;
        let ghost out_before = out@;
        let e = v.pop().unwrap();
        assert(entry_views(v_before) =~= entry_views(v@).push((e.0, e.1@)));
        let mut pos: usize = 0;
        while pos < out.len() && out[pos].0 <= e.0
            invariant
                out@ == out_before,
                pos <= out@.len(),
                forall|j: int| 0 <= j < pos ==> out@[j].0 <= e.0,
            decreases out.len() - pos,
        {
            pos = pos + 1;
        }
        let ghost ev = (e.0, e.1@);
        let ghost ob = entry_views(out_before);
        assert(pos < ob.len() ==> ob[pos as int].0 > e.0);
        out.insert(pos, e);
        assert(entry_views(out@) =~= ob.insert(pos as int, ev));
        proof {
            let nv = ob.insert(pos as int, ev);
            assert forall|a: int, b: int| 0 <= a < b < nv.len() implies nv[a].0 <= nv[b].0 by {
                if b < pos {
                    assert(nv[a] == ob[a] && nv[b] == ob[b]);
                } else if b == pos {
                    assert(nv[a] == ob[a]);
                    assert(out_before[a].0 <= e.0);
                } else if a < pos {
                    assert(nv[a] == ob[a] && nv[b] == ob[b - 1]);
                    assert(ob[a].0 <= e.0 && e.0 < ob[pos as int].0);
                    assert(ob[pos as int].0 <= ob[b - 1].0);
                } else if a == pos {
                    assert(nv[b] == ob[b - 1]);
                    assert(ob[pos as int].0 <= ob[b - 1].0);
                } else {
                    assert(nv[a] == ob[a - 1] && nv[b] == ob[b - 1]);
                }
            }
            to_multiset_insert(entry_views(out_before), pos as int, ev);
            assert(entry_views(out@).to_multiset() =~= entry_views(out_before).to_multiset().insert(ev));
            assert(entry_views(out@).to_multiset().add(entry_views(v@).to_multiset()) =~= all);
        }
    }
    proof {
        assert(entry_views(v@) =~= Seq::<(usize, Seq<char>)>::empty());
        assert(entry_views(out@).to_multiset() =~= all);
    }
    out
}

} // verus!
