//! Skills: entries installed under the per-user skills directory, each
//! described by a front-matter block at the head of its descriptor file.

use vstd::prelude::*;

verus! {

use crate::bytes::contains_seq;
use crate::bytes::contains_bytes;
use crate::bytes::find_bytes;
use crate::bytes::find_seq;
use crate::bytes::lemma_find_seq;
use crate::bytes::subvec;

/// One installed skill, as listed to the panel.
#[derive(Clone, Debug, PartialEq, Eq)]
pub struct Skill {
    /// Directory name of the skill.
    pub id: String,
    /// Name from the front-matter block.
    pub name: String,
    /// Description from the front-matter block.
    pub description: Option<String>,
    /// Path of the skill's directory.
    pub path: String,
}

/// The front-matter fence.
pub open spec fn fence() -> Seq<u8> {
    seq![45u8, 45u8, 45u8]
}

/// The front-matter block of a descriptor file: the bytes between an
/// opening fence at the very start and the next fence; absent when either
/// fence is missing.
pub open spec fn frontmatter_block_spec(content: Seq<u8>) -> Option<Seq<u8>> {
    if content.len() >= 3 && content.subrange(0, 3) == fence() {
        let rest = content.skip(3);
        let f = find_seq(rest, fence());
        if f >= 0 {
            Some(rest.subrange(0, f))
        } else {
            None
        }
    } else {
        None
    }
}

fn build_fence() -> (r: Vec<u8>)
    ensures
        r@ == fence(),
{
    let mut r: Vec<u8> = Vec::new();
    r.push(45);
    r.push(45);
    r.push(45);
    proof {
        assert(r@ =~= fence());
    }
    r
}

/// Cuts the front-matter block out of a descriptor file.
pub fn extract_frontmatter(content: &Vec<u8>) -> (r: Option<Vec<u8>>)
    ensures
        (r matches Some(v) ==> frontmatter_block_spec(content@) == Some(v@)),
        (r is None ==> frontmatter_block_spec(content@) is None),
{
    let len: usize = content.len();
    if len < 3 {
        return None;
    }
    if content[0] != 45 || content[1] != 45 || content[2] != 45 {
        proof {
            if content@.subrange(0, 3) == fence() {
                assert(content@.subrange(0, 3)[0] == content@[0]);
                assert(content@.subrange(0, 3)[1] == content@[1]);
                assert(content@.subrange(0, 3)[2] == content@[2]);
            }
        }
        return None;
    }
    proof {
        assert(content@.subrange(0, 3) =~= fence());
    }
    let marker = build_fence();
    let rest = subvec(content, 3, len);
    proof {
        assert(rest@ =~= content@.skip(3));
        lemma_find_seq(rest@, marker@);
    }
    match find_bytes(&rest, &marker) {
        Some(i) => Some(subvec(&rest, 0, i)),
        None => None,
    }
}

/// The token whose presence in the package manager's global listing shows
/// that the skill-registry tool is installed.
pub open spec fn registry_tool_marker() -> Seq<u8> {
    seq![99u8, 108u8, 97u8, 119u8, 104u8, 117u8, 98u8, 64u8]
}

/// Whether the package manager's global listing mentions the
/// skill-registry tool (the token `clawhub@`).
pub fn listing_mentions_registry_tool(out: &Vec<u8>) -> (r: bool)
    ensures
        r == contains_seq(out@, registry_tool_marker()),
{
    let mut marker: Vec<u8> = Vec::new();
    marker.push(99);
    marker.push(108);
    marker.push(97);
    marker.push(119);
    marker.push(104);
    marker.push(117);
    marker.push(98);
    marker.push(64);
    proof {
        assert(marker@ =~= registry_tool_marker());
    }
    contains_bytes(out, &marker)
}

} // verus!
