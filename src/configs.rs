use vstd::prelude::*;

verus! {

/// Static description of one function: its files, resources and snapshots.
#[derive(Clone, Debug)]
pub struct FunctionConfig {
    pub name: String,
    pub runtimefs: String,
    pub appfs: String,
    pub vcpus: u64,
    /// Guest memory in MB.
    pub memory: usize,
    pub concurrency_limit: usize,
    pub load_dir: Option<String>,
    pub dump_dir: Option<String>,
    /// Diff snapshot directories, applied in this order on top of `load_dir`.
    pub diff_dirs: Vec<String>,
    pub copy_base: bool,
    pub copy_diff: bool,
    pub kernel: String,
    pub cmdline: Option<String>,
}

/// Whether each file is opened bypassing the host page cache.
#[derive(Clone, Copy, Debug, PartialEq, Eq, Structural)]
pub struct OdirectOption {
    pub base: bool,
    pub diff: bool,
    pub rootfs: bool,
    pub appfs: bool,
}

impl Default for OdirectOption {
    /// Base snapshot cached; diff snapshots and both filesystems direct.
    fn default() -> (r: OdirectOption)
        ensures
            r == (OdirectOption { base: false, diff: true, rootfs: true, appfs: true }),
    {
        OdirectOption { base: false, diff: true, rootfs: true, appfs: true }
    }
}

/// ASCII `,`: separates the directories of a diff snapshot list.
pub const LIST_SEPARATOR: u8 = 44;

/// ASCII `/`: separates the tap device name from the MAC address in a network spec.
pub const NETWORK_SEPARATOR: u8 = 47;

/// The pieces of `s` between occurrences of `sep`, in order; an empty `s` is one empty piece.
pub open spec fn split_on(s: Seq<u8>, sep: u8) -> Seq<Seq<u8>>
    decreases s.len(),
{
    if s.len() == 0 {
        seq![Seq::empty()]
    } else {
        let prev = split_on(s.drop_last(), sep);
        if s.last() == sep {
            prev.push(Seq::empty())
        } else {
            prev.update(prev.len() - 1, prev.last().push(s.last()))
        }
    }
}

pub proof fn lemma_split_on_nonempty(s: Seq<u8>, sep: u8)
    ensures
        split_on(s, sep).len() >= 1,
    decreases s.len(),
{
    if s.len() > 0 {
        lemma_split_on_nonempty(s.drop_last(), sep);
    }
}

pub open spec fn pieces_view(v: Seq<Vec<u8>>) -> Seq<Seq<u8>> {
    v.map_values(|p: Vec<u8>| p@)
}

/// Splits `s` at every `sep`.
pub fn split_list(s: &Vec<u8>, sep: u8) -> (r: Vec<Vec<u8>>)
    ensures
        pieces_view(r@) == split_on(s@, sep),
{
    let mut pieces: Vec<Vec<u8>> = Vec::new();
    let mut cur: Vec<u8> = Vec::new();
    let mut i: usize = 0;
    proof {
        assert(s@.take(0) =~= Seq::<u8>::empty());
        assert(pieces_view(pieces@).push(cur@) =~= split_on(s@.take(0), sep));
    }
    while i < s.len()
        invariant
            0 <= i <= s@.len(),
            pieces_view(pieces@).push(cur@) == split_on(s@.take(i as int), sep),
        decreases s@.len() - i,
    {
        let c = s[i];
        let ghost t = s@.take(i + 1);
        proof {
            assert(t.drop_last() =~= s@.take(i as int));
            assert(t.last() == c);
            lemma_split_on_nonempty(s@.take(i as int), sep);
        }
        if c == sep {
            let done = cur;
            let ghost old_pieces = pieces@;
            pieces.push(done);
            cur = Vec::new();
            proof {
                assert(pieces_view(pieces@) =~= pieces_view(old_pieces).push(done@));
                assert(pieces_view(pieces@).push(cur@) =~= split_on(t, sep));
            }
        } else {
            cur.push(c);
            proof {
                assert(pieces_view(pieces@).push(cur@) =~= split_on(t, sep));
            }
        }
        i += 1;
    }
    proof {
        assert(s@.take(i as int) =~= s@);
    }
    let ghost old_pieces = pieces@;
    pieces.push(cur);
    proof {
        assert(pieces_view(pieces@) =~= pieces_view(old_pieces).push(cur@));
    }
    pieces
}

/// Splits a comma-separated list of diff snapshot directories, keeping their order.
pub fn parse_diff_dirs(s: &Vec<u8>) -> (r: Vec<Vec<u8>>)
    ensures
        pieces_view(r@) == split_on(s@, LIST_SEPARATOR),
{
    split_list(s, LIST_SEPARATOR)
}

/// Splits a network spec `TAP_NAME/MAC_ADDRESS` at its first `/`; `None` when it has none.
pub fn parse_network(s: &Vec<u8>) -> (r: Option<(Vec<u8>, Vec<u8>)>)
    ensures
        r is None <==> !s@.contains(NETWORK_SEPARATOR),
        r matches Some((tap, mac)) ==> tap@ + seq![NETWORK_SEPARATOR] + mac@ == s@ && !tap@.contains(NETWORK_SEPARATOR),
{
    let mut i: usize = 0;
    while i < s.len()
        invariant
            0 <= i <= s@.len(),
            forall|k: int| 0 <= k < i ==> s@[k] != NETWORK_SEPARATOR,
        decreases s@.len() - i,
    {
        if s[i] == NETWORK_SEPARATOR {
            let mut tap: Vec<u8> = Vec::new();
            let mut mac: Vec<u8> = Vec::new();
            let mut k: usize = 0;
            while k < i
                invariant
                    0 <= k <= i < s@.len(),
                    tap@ == s@.take(k as int),
                decreases i - k,
            {
                tap.push(s[k]);
                assert(s@.take(k + 1) =~= s@.take(k as int).push(s@[k as int]));
                k += 1;
            }
            k = i + 1;
            while k < s.len()
                invariant
                    i < k <= s@.len(),
                    mac@ == s@.subrange(i + 1, k as int),
                decreases s@.len() - k,
            {
                mac.push(s[k]);
                assert(s@.subrange(i + 1, k + 1) =~= s@.subrange(i + 1, k as int).push(s@[k as int]));
                k += 1;
            }
            assert(tap@ + seq![NETWORK_SEPARATOR] + mac@ =~= s@);
            assert(!tap@.contains(NETWORK_SEPARATOR)) by {
                if tap@.contains(NETWORK_SEPARATOR) {
                    let j = choose|j: int| 0 <= j < tap@.len() && tap@[j] == NETWORK_SEPARATOR;
                    assert(s@[j] == NETWORK_SEPARATOR);
                }
            }
            assert(s@.contains(NETWORK_SEPARATOR)) by {
                assert(s@[i as int] == NETWORK_SEPARATOR);
            }
            return Some((tap, mac));
        }
        i += 1;
    }
    None
}

} // verus!
