//! The keys by which the dispatcher finds its Jobs again.
use vstd::prelude::*;
use vstd::string::*;

use crate::trim::{
    lemma_trim_end,
    lemma_trim_nothing,
    lemma_trim_start,
    only,
    trim_end,
    trim_end_of,
    trim_white,
    trim_white_of,
    white,
};

verus! {

pub const DEFAULT_TRACKING_LABEL_PREFIX: &'static str = "k8s-job-dispatcher";

/// Keys stamped on every Job the dispatcher creates. They share one caller-chosen prefix so that
/// two dispatchers in a namespace do not read each other's Jobs.
#[derive(Debug)]
pub struct TrackingLabels {
    pub owner: String,
    pub node: String,
    /// Node names can be longer than a label value or contain characters invalid in one, so the
    /// authoritative name lives in an annotation.
    pub node_annotation: String,
}

/// The view of `TrackingLabels`.
#[verifier::ext_equal]
pub struct TrackingLabelsView {
    pub owner: Seq<char>,
    pub node: Seq<char>,
    pub node_annotation: Seq<char>,
}

impl DeepView for TrackingLabels {
    type V = TrackingLabelsView;

    open spec fn deep_view(&self) -> TrackingLabelsView {
        TrackingLabelsView {
            owner: self.owner.deep_view(),
            node: self.node.deep_view(),
            node_annotation: self.node_annotation.deep_view(),
        }
    }
}

impl Clone for TrackingLabels {
    fn clone(&self) -> (r: Self)
        ensures
            r == *self,
    {
        TrackingLabels {
            owner: self.owner.clone(),
            node: self.node.clone(),
            node_annotation: self.node_annotation.clone(),
        }
    }
}

/// The prefix without whitespace around it and without slashes at its end.
pub open spec fn tracking_prefix(prefix: Seq<char>) -> Seq<char> {
    trim_end(trim_white(prefix), only('/'))
}

/// The keys under a prefix.
pub open spec fn tracking_keys(prefix: Seq<char>) -> TrackingLabelsView {
    TrackingLabelsView {
        owner: tracking_prefix(prefix) + "/owner"@,
        node: tracking_prefix(prefix) + "/node"@,
        node_annotation: tracking_prefix(prefix) + "/node-name"@,
    }
}

impl TrackingLabels {
    /// The keys under `prefix`, which may have whitespace around it and slashes at its end.
    pub fn with_prefix(prefix: &str) -> (r: Self)
        ensures
            r.deep_view() == tracking_keys(prefix@),
    {
        let prefix = trim_end_of(trim_white_of(prefix), '/');
        let mut owner = prefix.to_owned();
        owner.append("/owner");
        let mut node = prefix.to_owned();
        node.append("/node");
        let mut node_annotation = prefix.to_owned();
        node_annotation.append("/node-name");
        TrackingLabels { owner, node, node_annotation }
    }
}

impl Default for TrackingLabels {
    fn default() -> (r: Self)
        ensures
            r.deep_view() == tracking_keys(DEFAULT_TRACKING_LABEL_PREFIX@),
            r.owner@ == "k8s-job-dispatcher/owner"@,
            r.node@ == "k8s-job-dispatcher/node"@,
            r.node_annotation@ == "k8s-job-dispatcher/node-name"@,
    {
        proof {
            reveal_strlit("k8s-job-dispatcher");
            reveal_strlit("/owner");
            reveal_strlit("/node");
            reveal_strlit("/node-name");
            reveal_strlit("k8s-job-dispatcher/owner");
            reveal_strlit("k8s-job-dispatcher/node");
            reveal_strlit("k8s-job-dispatcher/node-name");
            let prefix = DEFAULT_TRACKING_LABEL_PREFIX@;
            lemma_trim_nothing(prefix, |c: char| white(c));
            lemma_trim_nothing(prefix, only('/'));
            assert("k8s-job-dispatcher/owner"@ =~= prefix + "/owner"@);
            assert("k8s-job-dispatcher/node"@ =~= prefix + "/node"@);
            assert("k8s-job-dispatcher/node-name"@ =~= prefix + "/node-name"@);
        }
        Self::with_prefix(DEFAULT_TRACKING_LABEL_PREFIX)
    }
}

/// The three keys under a prefix are different, and under two prefixes that differ in more than
/// the whitespace around them and the slashes at their ends no key of one is a key of the other.
pub proof fn law_tracking_keys_are_distinct(a: Seq<char>, b: Seq<char>)
    ensures
        tracking_keys(a).owner != tracking_keys(b).node,
        tracking_keys(a).owner != tracking_keys(b).node_annotation,
        tracking_keys(a).node != tracking_keys(b).node_annotation,
        tracking_keys(b).owner != tracking_keys(a).node,
        tracking_keys(b).owner != tracking_keys(a).node_annotation,
        tracking_keys(b).node != tracking_keys(a).node_annotation,
        tracking_prefix(a) != tracking_prefix(b) ==> {
            &&& tracking_keys(a).owner != tracking_keys(b).owner
            &&& tracking_keys(a).node != tracking_keys(b).node
            &&& tracking_keys(a).node_annotation != tracking_keys(b).node_annotation
        },
{
    reveal_strlit("/owner");
    reveal_strlit("/node");
    reveal_strlit("/node-name");
    let ka = tracking_keys(a);
    let kb = tracking_keys(b);
    assert(ka.owner.last() == 'r');
    assert(kb.owner.last() == 'r');
    assert(ka.node.last() == 'e');
    assert(ka.node_annotation.last() == 'e');
    assert(ka.node_annotation[ka.node_annotation.len() - 3] == 'a');
    assert(kb.node[kb.node.len() - 3] == 'o');
    assert(ka.node[ka.node.len() - 3] == 'o');
    assert(kb.node.last() == 'e');
    assert(kb.node_annotation.last() == 'e');
    assert(kb.node_annotation[kb.node_annotation.len() - 3] == 'a');
    if tracking_prefix(a) != tracking_prefix(b) {
        lemma_same_ending(tracking_prefix(a), tracking_prefix(b), "/owner"@);
        lemma_same_ending(tracking_prefix(a), tracking_prefix(b), "/node"@);
        lemma_same_ending(tracking_prefix(a), tracking_prefix(b), "/node-name"@);
    }
}

/// Different texts with the same ending are different.
proof fn lemma_same_ending(a: Seq<char>, b: Seq<char>, ending: Seq<char>)
    requires
        a != b,
    ensures
        a + ending != b + ending,
{
    if a + ending == b + ending {
        assert((a + ending).len() == (b + ending).len());
        assert((a + ending).take(a.len() as int) =~= a);
        assert((b + ending).take(b.len() as int) =~= b);
    }
}

/// The keys stand behind one and the same part of the prefix: what is left when the whitespace at
/// both its ends is cut, and then the slashes at its end, and nothing else.
pub proof fn law_tracking_keys_share_their_prefix(prefix: Seq<char>)
    ensures
        exists|from: int, to: int, end: int|
            {
                &&& 0 <= from <= to <= end <= prefix.len()
                &&& forall|i: int|
                    0 <= i < from || end <= i < prefix.len() ==> white(#[trigger] prefix[i])
                &&& from < end ==> !white(prefix[from]) && !white(prefix[end - 1])
                &&& forall|i: int| to <= i < end ==> #[trigger] prefix[i] == '/'
                &&& from < to ==> prefix[to - 1] != '/'
                &&& tracking_keys(prefix).owner == #[trigger] prefix.take(end).subrange(from, to)
                    + "/owner"@
                &&& tracking_keys(prefix).node == prefix.subrange(from, to) + "/node"@
                &&& tracking_keys(prefix).node_annotation == prefix.subrange(from, to)
                    + "/node-name"@
            },
{
    let cut = |c: char| white(c);
    let ended = trim_end(prefix, cut);
    lemma_trim_end(prefix, cut);
    lemma_trim_start(ended, cut);
    let bare = trim_white(prefix);
    lemma_trim_end(bare, only('/'));
    let end = ended.len() as int;
    let from = end - bare.len();
    let to = from + tracking_prefix(prefix).len();
    assert forall|i: int| 0 <= i < from || end <= i < prefix.len() implies white(
        #[trigger] prefix[i],
    ) by {
        if i < from {
            assert(cut(ended[i]));
        } else {
            assert(cut(prefix[i]));
        }
    }
    if from < end {
        assert(bare[0] == prefix[from]);
        assert(!cut(bare[0]));
        assert(!cut(ended.last()));
    }
    assert forall|i: int| to <= i < end implies #[trigger] prefix[i] == '/' by {
        assert(only('/')(bare[i - from]));
        assert(bare[i - from] == prefix[i]);
    }
    if from < to {
        assert(!only('/')(tracking_prefix(prefix).last()));
        assert(tracking_prefix(prefix).last() == prefix[to - 1]);
    }
    assert(tracking_prefix(prefix) =~= prefix.subrange(from, to));
    assert(prefix.take(end).subrange(from, to) =~= prefix.subrange(from, to));
}

} // verus!
