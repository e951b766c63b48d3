//! Project identity: the project's name and hash, derived from its working
//! directory, and the deterministic names of its containers, network and user.
use sha2::Digest;
use vstd::prelude::*;

verus! {

/// The SHA-256 digest of the UTF-8 encoding of `s`.
pub uninterp spec fn sha256_digest(s: Seq<char>) -> Seq<u8>;

/// Relies on sha2::Sha256 (new, update, finalize): the digest of the bytes of
/// `s`, which is 32 bytes long.
#[verifier::external_body]
fn sha256_of_str(s: &str) -> (r: Vec<u8>)
    ensures
        r@ == sha256_digest(s@),
        r@.len() == 32,
{
    let mut hasher = sha2::Sha256::new();
    hasher.update(s);
    hasher.finalize().to_vec()
}

/// The lowercase hexadecimal digit of value `d` (`d < 16`).
pub open spec fn hex_char(d: int) -> char {
    seq!['0', '1', '2', '3', '4', '5', '6', '7', '8', '9', 'a', 'b', 'c', 'd', 'e', 'f'][d]
}

/// A byte in lowercase hexadecimal, without leading zero: one digit below 16,
/// two from 16 on.
pub open spec fn hex_of_byte(b: u8) -> Seq<char> {
    if b < 16 {
        seq![hex_char(b as int)]
    } else {
        seq![hex_char(b as int / 16), hex_char(b as int % 16)]
    }
}

/// The hexadecimal text of the first `n` bytes of `d`, byte after byte.
pub open spec fn hex_prefix(d: Seq<u8>, n: int) -> Seq<char>
    decreases n,
{
    if n <= 0 {
        Seq::empty()
    } else {
        hex_prefix(d, n - 1) + hex_of_byte(d[n - 1])
    }
}

/// How many leading digest bytes make up a project hash.
pub const HASH_BYTES: usize = 6;

/// The project hash of a digest: its first six bytes in hexadecimal.
pub open spec fn hash_text_of(d: Seq<u8>) -> Seq<char> {
    hex_prefix(d, if d.len() < HASH_BYTES { d.len() as int } else { HASH_BYTES as int })
}

/// The project hash of a working-directory path.
pub open spec fn project_hash_of(path: Seq<char>) -> Seq<char> {
    hash_text_of(sha256_digest(path))
}

pub open spec fn is_hex_char(c: char) -> bool {
    ('0' <= c && c <= '9') || ('a' <= c && c <= 'f')
}

fn hex_digit(d: u8) -> (r: &'static str)
    requires
        d < 16,
    ensures
        r@ == seq![hex_char(d as int)],
{
    let digits = "0123456789abcdef";
    proof {
        reveal_strlit("0123456789abcdef");
    }
    digits.substring_char(d as usize, d as usize + 1)
}

/// Writes a project hash from a digest: the first six bytes (fewer when the
/// digest is shorter), each in lowercase hexadecimal without leading zero.
pub fn hash_text(digest: &Vec<u8>) -> (r: String)
    ensures
        r@ == hash_text_of(digest@),
{
    let n: usize = if digest.len() < HASH_BYTES { digest.len() } else { HASH_BYTES };
    let mut out = String::new();
    let mut i: usize = 0;
    while i < n
        invariant
            n <= digest@.len(),
            0 <= i <= n,
            out@ == hex_prefix(digest@, i as int),
        decreases n - i,
    {
        let b = digest[i];
        if b < 16 {
            out.append(hex_digit(b));
        } else {
            out.append(hex_digit(b / 16));
            out.append(hex_digit(b % 16));
        }
        i = i + 1;
    }
    out
}

/// The project hash of the working directory `folder`.
pub fn project_hash(folder: &str) -> (r: String)
    ensures
        r@ == project_hash_of(folder@),
{
    let digest = sha256_of_str(folder);
    hash_text(&digest)
}

pub proof fn lemma_hex_prefix_shape(d: Seq<u8>, n: int)
    requires
        0 <= n <= d.len(),
    ensures
        n <= hex_prefix(d, n).len() <= 2 * n,
        forall|i: int| 0 <= i < hex_prefix(d, n).len() ==> is_hex_char(#[trigger] hex_prefix(d, n)[i]),
    decreases n,
{
    if n > 0 {
        lemma_hex_prefix_shape(d, n - 1);
        let b = d[n - 1];
        let prev = hex_prefix(d, n - 1);
        let s = hex_prefix(d, n);
        assert(s == prev + hex_of_byte(b));
        assert forall|i: int| 0 <= i < s.len() implies is_hex_char(#[trigger] s[i]) by {
            if i >= prev.len() {
                let k = i - prev.len();
                if b < 16 {
                    assert(s[i] == hex_char(b as int));
                } else if k == 0 {
                    assert(s[i] == hex_char(b as int / 16));
                } else {
                    assert(s[i] == hex_char(b as int % 16));
                }
                let q = if b < 16 { b as int } else if k == 0 { b as int / 16 } else { b as int % 16 };
                assert(0 <= q < 16);
                assert(is_hex_char(hex_char(q))) by {
                    assert(q == 0 || q == 1 || q == 2 || q == 3 || q == 4 || q == 5 || q == 6 || q == 7
                        || q == 8 || q == 9 || q == 10 || q == 11 || q == 12 || q == 13 || q == 14 || q == 15);
                }
            } else {
                assert(s[i] == prev[i]);
            }
        }
    }
}

/// The project hash is a function of the working-directory path alone: the
/// same path gives the same hash on every run, and that hash is six to twelve
/// lowercase hexadecimal digits.
pub proof fn lemma_project_hash_stable(a: Seq<char>, b: Seq<char>)
    requires
        a == b,
    ensures
        project_hash_of(a) == project_hash_of(b),
        forall|d: Seq<u8>| d.len() == 32 ==> 6 <= #[trigger] hash_text_of(d).len() <= 12,
        forall|d: Seq<u8>, i: int|
            d.len() == 32 && 0 <= i < hash_text_of(d).len() ==> is_hex_char(#[trigger] hash_text_of(d)[i]),
{
    assert forall|d: Seq<u8>| d.len() == 32 implies 6 <= #[trigger] hash_text_of(d).len() <= 12 by {
        lemma_hex_prefix_shape(d, 6);
    }
    assert forall|d: Seq<u8>, i: int|
        d.len() == 32 && 0 <= i < hash_text_of(d).len() implies is_hex_char(#[trigger] hash_text_of(d)[i]) by {
        lemma_hex_prefix_shape(d, 6);
    }
}

/// What follows the last `/` of a path (all of it when it holds none).
pub open spec fn last_segment(path: Seq<char>) -> Seq<char>
    decreases path.len(),
{
    if path.len() == 0 {
        Seq::empty()
    } else if path.last() == '/' {
        Seq::empty()
    } else {
        last_segment(path.drop_last()).push(path.last())
    }
}

/// The project name of a working directory: its last path segment, where that
/// segment names a directory (not empty, not `..`).
pub open spec fn project_name_of(path: Seq<char>) -> Option<Seq<char>> {
    let seg = last_segment(path);
    if seg.len() == 0 || seg == seq!['.', '.'] {
        None
    } else {
        Some(seg)
    }
}

/// `{project}-{service}-{hash}`: the name of a service's container.
pub open spec fn container_name_of(project: Seq<char>, service: Seq<char>, hash: Seq<char>) -> Seq<char> {
    project + seq!['-'] + service + seq!['-'] + hash
}

/// `{project}-default`: the name of the project's network.
pub open spec fn network_name_of(project: Seq<char>) -> Seq<char> {
    project + seq!['-', 'd', 'e', 'f', 'a', 'u', 'l', 't']
}

/// `{project}-user`: the user that project containers run as.
pub open spec fn user_name_of(project: Seq<char>) -> Seq<char> {
    project + seq!['-', 'u', 's', 'e', 'r']
}

/// `{project}-{service}`: the network alias of a service besides its own name.
pub open spec fn alias_of(project: Seq<char>, service: Seq<char>) -> Seq<char> {
    project + seq!['-'] + service
}

/// The last path segment of `path`.
pub fn last_path_segment(path: &str) -> (r: String)
    ensures
        r@ == last_segment(path@),
{
    let n = path.unicode_len();
    let mut start: usize = n;
    assert(path@.subrange(0, n as int) == path@);
    assert(path@.subrange(n as int, n as int) == Seq::<char>::empty());
    while start > 0 && path.get_char(start - 1) != '/'
        invariant
            n == path@.len(),
            0 <= start <= n,
            last_segment(path@) == last_segment(path@.subrange(0, start as int)) + path@.subrange(start as int, n as int),
        decreases start,
    {
        let ghost p = path@.subrange(0, start as int);
        assert(p.drop_last() == path@.subrange(0, start - 1));
        assert(path@.subrange(start - 1, n as int) == seq![p.last()] + path@.subrange(start as int, n as int));
        start = start - 1;
    }
    proof {
        let p = path@.subrange(0, start as int);
        if start > 0 {
            assert(p.last() == '/');
        }
        assert(last_segment(p) == Seq::<char>::empty());
        assert(path@.subrange(0, n as int) == path@);
    }
    path.substring_char(start, n).to_owned()
}

fn concat3(a: &str, b: &str, c: &str) -> (r: String)
    ensures
        r@ == a@ + b@ + c@,
{
    let mut out = a.to_owned();
    out.append(b);
    out.append(c);
    out
}

/// The identity of a project: its name and hash, and the directory both were
/// derived from.
pub struct Project {
    pub name: String,
    pub hash: String,
    pub dir: String,
}

impl Project {
    /// The project whose working directory is `dir`, or `None` when the last
    /// segment of `dir` names no directory.
    pub fn from_dir(dir: &str) -> (r: Option<Project>)
        ensures
            r is None <==> project_name_of(dir@) is None,
            r matches Some(p) ==> {
                &&& Some(p.name@) == project_name_of(dir@)
                &&& p.hash@ == project_hash_of(dir@)
                &&& p.dir@ == dir@
            },
    {
        let name = last_path_segment(dir);
        let len = name.unicode_len();
        if len == 0 || (len == 2 && name.as_str().get_char(0) == '.' && name.as_str().get_char(1) == '.') {
            assert(len == 0 || name@ =~= seq!['.', '.']);
            return None;
        }
        assert(name@ != seq!['.', '.']) by {
            if name@ == seq!['.', '.'] {
                assert(name@[0] == '.' && name@[1] == '.');
            }
        }
        Some(Project { name, hash: project_hash(dir), dir: dir.to_owned() })
    }

    /// The name of the container of `service`.
    pub fn container_name(&self, service: &str) -> (r: String)
        ensures
            r@ == container_name_of(self.name@, service@, self.hash@),
    {
        let dash = "-";
        proof {
            reveal_strlit("-");
        }
        let mut out = concat3(self.name.as_str(), dash, service);
        out.append(dash);
        out.append(self.hash.as_str());
        out
    }

    /// The name of the container of the project's main service, the one named
    /// after the project itself.
    pub fn main_container_name(&self) -> (r: String)
        ensures
            r@ == container_name_of(self.name@, self.name@, self.hash@),
    {
        self.container_name(self.name.as_str())
    }

    /// The name of the project's network.
    pub fn network_name(&self) -> (r: String)
        ensures
            r@ == network_name_of(self.name@),
    {
        let suffix = "-default";
        proof {
            reveal_strlit("-default");
        }
        let mut out = self.name.clone();
        out.append(suffix);
        out
    }

    /// The user that the project's own containers run as.
    pub fn user_name(&self) -> (r: String)
        ensures
            r@ == user_name_of(self.name@),
    {
        let suffix = "-user";
        proof {
            reveal_strlit("-user");
        }
        let mut out = self.name.clone();
        out.append(suffix);
        out
    }

    /// The names under which `service` is reached on the project network:
    /// `{project}-{service}`, then the service name itself.
    pub fn aliases(&self, service: &str) -> (r: Vec<String>)
        ensures
            r@.len() == 2,
            r@[0]@ == alias_of(self.name@, service@),
            r@[1]@ == service@,
    {
        let dash = "-";
        proof {
            reveal_strlit("-");
        }
        let mut v: Vec<String> = Vec::new();
        v.push(concat3(self.name.as_str(), dash, service));
        v.push(service.to_owned());
        v
    }
}

/// Container names do not collide: for one hash, two (project, service) pairs
/// whose project names have the same length (in particular, two services of
/// one project) give the same container name only when they are the same pair.
pub proof fn lemma_container_name_injective(
    p1: Seq<char>,
    s1: Seq<char>,
    p2: Seq<char>,
    s2: Seq<char>,
    hash: Seq<char>,
)
    requires
        p1.len() == p2.len(),
        container_name_of(p1, s1, hash) == container_name_of(p2, s2, hash),
    ensures
        p1 == p2,
        s1 == s2,
{
    let n1 = container_name_of(p1, s1, hash);
    let n2 = container_name_of(p2, s2, hash);
    assert(n1.len() == p1.len() + 1 + s1.len() + 1 + hash.len());
    assert(n2.len() == p2.len() + 1 + s2.len() + 1 + hash.len());
    assert(s1.len() == s2.len());
    assert(p1 =~= n1.subrange(0, p1.len() as int));
    assert(p2 =~= n2.subrange(0, p2.len() as int));
    let lo = p1.len() + 1;
    let hi = lo + s1.len();
    assert(s1 =~= n1.subrange(lo as int, hi as int));
    assert(s2 =~= n2.subrange(lo as int, hi as int));
}

} // verus!
