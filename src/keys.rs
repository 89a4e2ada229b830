//! Layout of the keys in the coordination store:
//! `{prefix}/servers/{kind}/{id}` for a server, `{prefix}/servers/{kind}/`
//! for the servers of a kind and `{prefix}/servers/` for all of them.
use crate::server::{ServerId, ServerKind};
use vstd::prelude::*;
use vstd::string::{StrSliceExecFns, StringExecFns};

verus! {

/// The segment between the prefix and the kind.
pub open spec fn servers_segment() -> Seq<char> {
    seq!['/', 's', 'e', 'r', 'v', 'e', 'r', 's', '/']
}

/// `{prefix}/servers/`: under it are all servers.
pub open spec fn servers_root(prefix: Seq<char>) -> Seq<char> {
    prefix + servers_segment()
}

/// `{prefix}/servers/{kind}/`: under it are the servers of one kind.
pub open spec fn kind_root(prefix: Seq<char>, kind: Seq<char>) -> Seq<char> {
    servers_root(prefix) + kind + seq!['/']
}

/// `{prefix}/servers/{kind}/{id}`: where a server is registered.
pub open spec fn server_key(prefix: Seq<char>, kind: Seq<char>, id: Seq<char>) -> Seq<char> {
    kind_root(prefix, kind) + id
}

/// The prefix watched for membership changes.
pub fn watch_prefix(prefix: &str) -> (r: String)
    ensures
        r@ == servers_root(prefix@),
{
    let mut r = String::from_str(prefix);
    r.append("/servers/");
    proof {
        reveal_strlit("/servers/");
        assert(r@ =~= servers_root(prefix@));
    }
    r
}

/// The prefix read to fill the servers of kind `kind`.
pub fn server_kind_prefix(prefix: &str, kind: &ServerKind) -> (r: String)
    ensures
        r@ == kind_root(prefix@, kind.0@),
{
    let mut r = watch_prefix(prefix);
    r.append(kind.0.as_str());
    r.append("/");
    proof {
        reveal_strlit("/");
        assert(r@ =~= kind_root(prefix@, kind.0@));
    }
    r
}

/// The key under which the server `id` of kind `kind` registers itself.
pub fn etcd_server_key(prefix: &str, kind: &ServerKind, id: &ServerId) -> (r: String)
    ensures
        r@ == server_key(prefix@, kind.0@, id.0@),
{
    let mut r = server_kind_prefix(prefix, kind);
    r.append(id.0.as_str());
    r
}

/// Splits a server key into its kind and id. The kind is the text up to the
/// first `/` after `{prefix}/servers/`, the id all that follows it. Fails
/// exactly when `key` is not a server key under `prefix`.
pub fn parse_server_key(prefix: &str, key: &str) -> (r: Option<(ServerKind, ServerId)>)
    ensures
        match r {
            Some((kind, id)) => key@ == server_key(prefix@, kind.0@, id.0@) && !kind.0@.contains('/'),
            None => forall|kind: Seq<char>, id: Seq<char>|
                !kind.contains('/') ==> key@ != #[trigger] server_key(prefix@, kind, id),
        },
{
    let root = watch_prefix(prefix);
    let rn = root.as_str().unicode_len();
    let kn = key.unicode_len();
    if kn < rn {
        return None;
    }
    let head = String::from_str(key.substring_char(0, rn));
    if head != root {
        proof {
            assert forall|kind: Seq<char>, id: Seq<char>|
                !kind.contains('/') implies key@ != #[trigger] server_key(prefix@, kind, id) by {
                if key@ == server_key(prefix@, kind, id) {
                    assert(key@.subrange(0, rn as int) =~= root@);
                }
            }
        }
        return None;
    }
    let mut j: usize = rn;
    while j < kn && key.get_char(j) != '/'
        invariant
            rn <= j <= kn,
            kn == key@.len(),
            forall|x: int| rn <= x < j ==> key@[x] != '/',
        decreases kn - j,
    {
        j = j + 1;
    }
    if j == kn {
        proof {
            assert forall|kind: Seq<char>, id: Seq<char>|
                !kind.contains('/') implies key@ != #[trigger] server_key(prefix@, kind, id) by {
                if key@ == server_key(prefix@, kind, id) {
                    let p = rn + kind.len();
                    assert(key@[p] == '/');
                    assert(p < kn);
                }
            }
        }
        return None;
    }
    let kind = String::from_str(key.substring_char(rn, j));
    let id = String::from_str(key.substring_char(j + 1, kn));
    proof {
        assert(key@ =~= server_key(prefix@, kind@, id@));
        assert(!kind@.contains('/')) by {
            if kind@.contains('/') {
                let x = choose|x: int| 0 <= x < kind@.len() && kind@[x] == '/';
                assert(key@[rn + x] == '/');
            }
        }
    }
    Some((ServerKind(kind), ServerId(id)))
}


/// A server key splits into one kind and one id only.
pub proof fn lemma_server_key_unique(
    prefix: Seq<char>,
    k1: Seq<char>,
    i1: Seq<char>,
    k2: Seq<char>,
    i2: Seq<char>,
)
    requires
        !k1.contains('/'),
        !k2.contains('/'),
        server_key(prefix, k1, i1) == server_key(prefix, k2, i2),
    ensures
        k1 == k2,
        i1 == i2,
{
    let key = server_key(prefix, k1, i1);
    let rn = servers_root(prefix).len() as int;
    if k1.len() < k2.len() {
        assert(key[rn + k1.len() as int] == '/');
        assert(key[rn + k1.len() as int] == k2[k1.len() as int]);
    } else if k2.len() < k1.len() {
        assert(key[rn + k2.len() as int] == '/');
        assert(key[rn + k2.len() as int] == k1[k2.len() as int]);
    }
    assert(k1 =~= key.subrange(rn, rn + k1.len()));
    assert(k2 =~= key.subrange(rn, rn + k2.len()));
    assert(i1 =~= key.subrange(rn + k1.len() + 1, key.len() as int));
    assert(i2 =~= key.subrange(rn + k2.len() + 1, key.len() as int));
}

} // verus!
