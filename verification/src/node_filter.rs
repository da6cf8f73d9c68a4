//! DaemonSet-equivalent node admission.
//!
//! Pinning a pod with `spec.nodeName` bypasses the scheduler, and `NoSchedule` is a
//! scheduler-side check the kubelet never repeats. Taint admission is decided here, or a run
//! would reach nodes that an equivalent DaemonSet would have skipped.
use vstd::prelude::*;
use vstd::string::*;

use crate::objects::{Node, NodeView, Taint, TaintView, Toleration, TolerationView};
use crate::sorted::{ascending, find_slot, has_key, lemma_insert_keeps_order, lemma_same_keys, Keyed};
use crate::text::{borrowed, same_text, text_lt};

verus! {

/// What the Job template's pod spec says about where its pods may run.
#[derive(Debug)]
pub struct PodAdmission {
    pub tolerations: Vec<Toleration>,
    pub host_network: bool,
}

impl Default for PodAdmission {
    fn default() -> (r: Self)
        ensures
            r.tolerations@.len() == 0,
            !r.host_network,
    {
        PodAdmission { tolerations: Vec::new(), host_network: false }
    }
}

impl Clone for PodAdmission {
    fn clone(&self) -> (r: Self)
        ensures
            r.tolerations.deep_view() == self.tolerations.deep_view(),
            r.host_network == self.host_network,
    {
        let r = PodAdmission {
            tolerations: self.tolerations.clone(),
            host_network: self.host_network,
        };
        assert(r.tolerations.deep_view() =~= self.tolerations.deep_view());
        r
    }
}

/// A node that a run leaves out, with the taint that keeps it out.
#[derive(Debug)]
pub struct SkippedNode {
    pub name: String,
    pub taint: Taint,
}

impl Keyed for SkippedNode {
    open spec fn key(&self) -> Seq<char> {
        self.name@
    }

    fn key_text(&self) -> (r: &str) {
        self.name.as_str()
    }
}

// ---------------------------------------------------------------------------------------------
// Taints as text

/// A taint, spelled the way `kubectl taint` does.
pub open spec fn taint_text(taint: TaintView) -> Seq<char> {
    match taint.value {
        Some(value) if value.len() > 0 => taint.key + "="@ + value + ":"@ + taint.effect,
        _ => taint.key + ":"@ + taint.effect,
    }
}

/// Spelled the way `kubectl taint` does, for logs and errors.
pub fn describe_taint(taint: &Taint) -> (r: String)
    ensures
        r@ == taint_text(taint.deep_view()),
{
    let mut r = taint.key.clone();
    match borrowed(&taint.value) {
        Some(value) => {
            if !value.is_empty() {
                r.append("=");
                r.append(value);
            }
        },
        None => {},
    }
    r.append(":");
    r.append(taint.effect.as_str());
    r
}

/// The lines that make a pod spec tolerate `taint`.
pub open spec fn toleration_text(taint: TaintView) -> Seq<char> {
    "tolerations:\n  - key: "@ + taint.key + "\n    operator: Exists\n    effect: "@ + taint.effect
}

/// The lines to put into a pod spec so that it tolerates `taint`.
pub fn suggested_toleration(taint: &Taint) -> (r: String)
    ensures
        r@ == toleration_text(taint.deep_view()),
{
    let mut r = "tolerations:\n  - key: ".to_owned();
    r.append(taint.key.as_str());
    r.append("\n    operator: Exists\n    effect: ");
    r.append(taint.effect.as_str());
    r
}

// ---------------------------------------------------------------------------------------------
// Matching

/// The text, or none of it.
pub open spec fn or_empty(text: Option<Seq<char>>) -> Seq<char> {
    match text {
        Some(s) => s,
        None => Seq::empty(),
    }
}

/// An unset or empty pattern matches any text, another one itself alone.
pub open spec fn matches_text(pattern: Option<Seq<char>>, text: Seq<char>) -> bool {
    or_empty(pattern).len() == 0 || or_empty(pattern) == text
}

/// The operator that compares values for equality, which is what an unset or empty one does too.
pub open spec fn is_equal_operator(operator: Option<Seq<char>>) -> bool {
    or_empty(operator).len() == 0 || operator == Some("Equal"@)
}

/// Kubernetes' own matching rules: an empty effect matches any effect, an empty key any key,
/// `Exists` any value, and `Equal`, which is the default, an equal value. No other operator matches
/// anything: `Lt` and `Gt` compare numbers only in a cluster that has them switched on.
pub open spec fn tolerated(toleration: TolerationView, taint: TaintView) -> bool {
    &&& matches_text(toleration.effect, taint.effect)
    &&& matches_text(toleration.key, taint.key)
    &&& toleration.operator == Some("Exists"@) || (is_equal_operator(toleration.operator)
        && or_empty(toleration.value) == or_empty(taint.value))
}

/// `PreferNoSchedule` expresses a preference and never blocks admission.
pub open spec fn blocking(effect: Seq<char>) -> bool {
    effect == "NoSchedule"@ || effect == "NoExecute"@
}

/// A taint keeps a pod off a node if its effect blocks and no toleration matches it.
pub open spec fn untolerated(taint: TaintView, tolerations: Seq<TolerationView>) -> bool {
    &&& blocking(taint.effect)
    &&& forall|j: int|
        0 <= j < tolerations.len() ==> !tolerated(#[trigger] tolerations[j], taint)
}

/// The first taint that keeps a pod with these tolerations off the node.
pub open spec fn first_untolerated(
    taints: Seq<TaintView>,
    tolerations: Seq<TolerationView>,
) -> Option<TaintView>
    decreases taints.len(),
{
    if taints.len() == 0 {
        None
    } else if untolerated(taints[0], tolerations) {
        Some(taints[0])
    } else {
        first_untolerated(taints.drop_first(), tolerations)
    }
}

fn matches(pattern: &Option<String>, text: &str) -> (r: bool)
    ensures
        r == matches_text(pattern.deep_view(), text@),
{
    match borrowed(pattern) {
        Some(pattern) => pattern.is_empty() || same_text(pattern, text),
        None => true,
    }
}

fn text_or_empty(text: &Option<String>) -> (r: &str)
    ensures
        r@ == or_empty(text.deep_view()),
{
    match text {
        Some(text) => text.as_str(),
        None => {
            proof {
                reveal_strlit("");
                assert(""@ =~= Seq::<char>::empty());
            }
            ""
        },
    }
}

/// Follows Kubernetes' own matching rules: an empty effect matches any effect, an empty key any
/// key, and the operator defaults to `Equal`. An operator that is neither that nor `Exists`
/// tolerates nothing.
pub fn tolerates(toleration: &Toleration, taint: &Taint) -> (r: bool)
    ensures
        r == tolerated(toleration.deep_view(), taint.deep_view()),
{
    if !matches(&toleration.effect, taint.effect.as_str()) {
        return false;
    }
    if !matches(&toleration.key, taint.key.as_str()) {
        return false;
    }
    match borrowed(&toleration.operator) {
        Some(operator) => {
            if same_text(operator, "Exists") {
                return true;
            }
            if !operator.is_empty() && !same_text(operator, "Equal") {
                return false;
            }
        },
        None => {},
    }
    same_text(text_or_empty(&toleration.value), text_or_empty(&taint.value))
}

fn keeps_out(taint: &Taint, tolerations: &[Toleration]) -> (r: bool)
    ensures
        r == untolerated(taint.deep_view(), tolerations.deep_view()),
{
    let effect = taint.effect.as_str();
    if !same_text(effect, "NoSchedule") && !same_text(effect, "NoExecute") {
        return false;
    }
    let mut j: usize = 0;
    while j < tolerations.len()
        invariant
            j <= tolerations@.len(),
            blocking(taint.deep_view().effect),
            forall|k: int|
                0 <= k < j ==> !tolerated(
                    #[trigger] tolerations.deep_view()[k],
                    taint.deep_view(),
                ),
        decreases tolerations@.len() - j,
    {
        let ghost seen = tolerations.deep_view()[j as int];
        if tolerates(&tolerations[j], taint) {
            assert(tolerated(seen, taint.deep_view()));
            return false;
        }
        j = j + 1;
    }
    true
}

/// The first taint that keeps a pod with these tolerations off the node.
pub fn untolerated_taint<'a>(taints: &'a [Taint], tolerations: &[Toleration]) -> (r: Option<
    &'a Taint,
>)
    ensures
        r.deep_view() == first_untolerated(taints.deep_view(), tolerations.deep_view()),
        r is Some ==> taints@.contains(*r->0),
{
    let mut i: usize = 0;
    let ghost all = taints.deep_view();
    let ghost tols = tolerations.deep_view();
    assert(all.skip(0) =~= all);
    while i < taints.len()
        invariant
            i <= taints@.len(),
            all == taints.deep_view(),
            tols == tolerations.deep_view(),
            first_untolerated(all, tols) == first_untolerated(all.skip(i as int), tols),
        decreases taints@.len() - i,
    {
        assert(all.skip(i as int)[0] == taints@[i as int].deep_view());
        assert(all.skip(i as int).drop_first() =~= all.skip(i + 1));
        if keeps_out(&taints[i], tolerations) {
            return Some(&taints[i]);
        }
        i = i + 1;
    }
    None
}

// ---------------------------------------------------------------------------------------------
// The tolerations of a DaemonSet

/// A toleration of every taint with this key and effect.
pub open spec fn exists_toleration(key: Seq<char>, effect: Seq<char>) -> TolerationView {
    TolerationView {
        key: Some(key),
        operator: Some("Exists"@),
        value: None,
        effect: Some(effect),
        toleration_seconds: None,
    }
}

/// The tolerations that the DaemonSet controller adds silently. That of a node without network is
/// among them only for host-network pods.
pub open spec fn implicit_tolerations(host_network: bool) -> Seq<TolerationView> {
    let always = seq![
        exists_toleration("node.kubernetes.io/not-ready"@, "NoExecute"@),
        exists_toleration("node.kubernetes.io/unreachable"@, "NoExecute"@),
        exists_toleration("node.kubernetes.io/disk-pressure"@, "NoSchedule"@),
        exists_toleration("node.kubernetes.io/memory-pressure"@, "NoSchedule"@),
        exists_toleration("node.kubernetes.io/pid-pressure"@, "NoSchedule"@),
        exists_toleration("node.kubernetes.io/unschedulable"@, "NoSchedule"@),
    ];
    if host_network {
        always.push(exists_toleration("node.kubernetes.io/network-unavailable"@, "NoSchedule"@))
    } else {
        always
    }
}

fn tolerating(key: &str, effect: &str) -> (r: Toleration)
    ensures
        r.deep_view() == exists_toleration(key@, effect@),
{
    Toleration {
        key: Some(key.to_owned()),
        operator: Some("Exists".to_owned()),
        value: None,
        effect: Some(effect.to_owned()),
        toleration_seconds: None,
    }
}

/// Tolerations the DaemonSet controller adds silently, without which a cordoned or
/// resource-pressured node would miss a rollout a DaemonSet would have reached.
/// `network-unavailable` is in that set only for host-network pods.
pub fn daemonset_controller_tolerations(host_network: bool) -> (r: Vec<Toleration>)
    ensures
        r.deep_view() == implicit_tolerations(host_network),
{
    let mut r: Vec<Toleration> = Vec::new();
    r.push(tolerating("node.kubernetes.io/not-ready", "NoExecute"));
    r.push(tolerating("node.kubernetes.io/unreachable", "NoExecute"));
    r.push(tolerating("node.kubernetes.io/disk-pressure", "NoSchedule"));
    r.push(tolerating("node.kubernetes.io/memory-pressure", "NoSchedule"));
    r.push(tolerating("node.kubernetes.io/pid-pressure", "NoSchedule"));
    r.push(tolerating("node.kubernetes.io/unschedulable", "NoSchedule"));
    if host_network {
        r.push(tolerating("node.kubernetes.io/network-unavailable", "NoSchedule"));
    }
    assert(r.deep_view() =~= implicit_tolerations(host_network));
    r
}

// ---------------------------------------------------------------------------------------------
// Partition

/// The tolerations that count: the template's own and those of a DaemonSet.
pub open spec fn effective_tolerations(
    tolerations: Seq<TolerationView>,
    host_network: bool,
) -> Seq<TolerationView> {
    tolerations + implicit_tolerations(host_network)
}

/// The taints of a node. One without a spec has none.
pub open spec fn taints_of(node: NodeView) -> Seq<TaintView> {
    match node.spec {
        Some(spec) => match spec.taints {
            Some(taints) => taints,
            None => Seq::empty(),
        },
        None => Seq::empty(),
    }
}

/// What keeps a pod with these tolerations off the node.
pub open spec fn blocker(node: NodeView, tolerations: Seq<TolerationView>) -> Option<TaintView> {
    first_untolerated(taints_of(node), tolerations)
}

/// Node `i` has this name and lets the pod in.
pub open spec fn admits(
    nodes: Seq<NodeView>,
    tolerations: Seq<TolerationView>,
    i: int,
    name: Seq<char>,
) -> bool {
    nodes[i].metadata.name == Some(name) && blocker(nodes[i], tolerations) is None
}

/// Node `i` has this name and keeps the pod out.
pub open spec fn refuses(
    nodes: Seq<NodeView>,
    tolerations: Seq<TolerationView>,
    i: int,
    name: Seq<char>,
) -> bool {
    nodes[i].metadata.name == Some(name) && blocker(nodes[i], tolerations) is Some
}

/// One of the first `n` nodes has this name and lets the pod in.
pub open spec fn admitted_among(
    nodes: Seq<NodeView>,
    tolerations: Seq<TolerationView>,
    n: int,
    name: Seq<char>,
) -> bool {
    exists|i: int| 0 <= i < n && #[trigger] admits(nodes, tolerations, i, name)
}

/// One of the first `n` nodes has this name and keeps the pod out.
pub open spec fn refused_among(
    nodes: Seq<NodeView>,
    tolerations: Seq<TolerationView>,
    n: int,
    name: Seq<char>,
) -> bool {
    exists|i: int| 0 <= i < n && #[trigger] refuses(nodes, tolerations, i, name)
}

/// `taint` is what keeps the pod off the first of the nodes with this name that keep it out.
pub open spec fn first_refusal(
    nodes: Seq<NodeView>,
    tolerations: Seq<TolerationView>,
    n: int,
    name: Seq<char>,
    taint: TaintView,
) -> bool {
    exists|i: int|
        0 <= i < n && #[trigger] refuses(nodes, tolerations, i, name) && !refused_among(
            nodes,
            tolerations,
            i,
            name,
        ) && blocker(nodes[i], tolerations) == Some(taint)
}

/// What the partition of the first `n` nodes comes to: the names of the nodes that let the pod
/// in, and those that keep it out with what does, in order and each once.
pub open spec fn is_partition(
    nodes: Seq<NodeView>,
    tolerations: Seq<TolerationView>,
    n: int,
    admitted: Seq<String>,
    skipped: Seq<SkippedNode>,
) -> bool {
    &&& ascending(admitted)
    &&& ascending(skipped)
    &&& forall|name: Seq<char>| #[trigger]
        has_key(admitted, name) == admitted_among(nodes, tolerations, n, name)
    &&& forall|name: Seq<char>| #[trigger]
        has_key(skipped, name) == refused_among(nodes, tolerations, n, name)
    &&& forall|k: int|
        0 <= k < skipped.len() ==> first_refusal(
            nodes,
            tolerations,
            n,
            #[trigger] skipped[k].key(),
            skipped[k].taint.deep_view(),
        )
}

fn node_taints(node: &Node) -> (r: &[Taint])
    ensures
        r.deep_view() == taints_of(node.deep_view()),
{
    match &node.spec {
        Some(spec) => match &spec.taints {
            Some(taints) => {
                let r = taints.as_slice();
                assert(r.deep_view() =~= taints.deep_view());
                return r;
            },
            None => {},
        },
        None => {},
    }
    let r: &[Taint] = &[];
    assert(r.deep_view() =~= Seq::<TaintView>::empty());
    r
}

/// Puts a name where it belongs, unless it stands there already.
fn note_admitted(admitted: &mut Vec<String>, name: String)
    requires
        ascending(old(admitted)@),
    ensures
        ascending(final(admitted)@),
        forall|key: Seq<char>| #[trigger]
            has_key(final(admitted)@, key) <==> has_key(old(admitted)@, key) || key == name@,
{
    let (at, found) = find_slot(admitted, name.as_str());
    if !found {
        proof {
            lemma_insert_keeps_order(admitted@, at as int, name);
        }
        admitted.insert(at, name);
    }
}

/// Puts a skipped node where it belongs, unless one with its name stands there already.
fn note_skipped(skipped: &mut Vec<SkippedNode>, node: SkippedNode)
    requires
        ascending(old(skipped)@),
    ensures
        ascending(final(skipped)@),
        forall|key: Seq<char>| #[trigger]
            has_key(final(skipped)@, key) <==> has_key(old(skipped)@, key) || key == node.key(),
        forall|k: int|
            0 <= k < final(skipped)@.len() ==> old(skipped)@.contains(
                #[trigger] final(skipped)@[k],
            ) || (final(skipped)@[k] == node && !has_key(old(skipped)@, node.key())),
{
    let ghost before = skipped@;
    let (at, found) = find_slot(skipped, node.key_text());
    if !found {
        proof {
            lemma_insert_keeps_order(before, at as int, node);
        }
        skipped.insert(at, node);
        assert forall|k: int| 0 <= k < skipped@.len() implies before.contains(
            #[trigger] skipped@[k],
        ) || skipped@[k] == node by {
            if k < at {
                assert(skipped@[k] == before[k]);
            } else if k > at {
                assert(skipped@[k] == before[k - 1]);
            }
        }
    }
}

/// What a node without a name changes: nothing.
proof fn lemma_partition_unnamed(
    nodes: Seq<NodeView>,
    tolerations: Seq<TolerationView>,
    n: int,
    admitted: Seq<String>,
    skipped: Seq<SkippedNode>,
)
    requires
        0 <= n,
        nodes[n].metadata.name is None,
        is_partition(nodes, tolerations, n, admitted, skipped),
    ensures
        is_partition(nodes, tolerations, n + 1, admitted, skipped),
{
    lemma_among_next(nodes, tolerations, n);
    assert forall|k: int| 0 <= k < skipped.len() implies first_refusal(
        nodes,
        tolerations,
        n + 1,
        #[trigger] skipped[k].key(),
        skipped[k].taint.deep_view(),
    ) by {
        lemma_first_refusal_stays(
            nodes,
            tolerations,
            n,
            skipped[k].key(),
            skipped[k].taint.deep_view(),
        );
    }
}

/// One node more adds its own name, to one side.
proof fn lemma_among_next(nodes: Seq<NodeView>, tolerations: Seq<TolerationView>, n: int)
    requires
        0 <= n,
    ensures
        forall|name: Seq<char>| #[trigger]
            admitted_among(nodes, tolerations, n + 1, name) <==> admitted_among(
                nodes,
                tolerations,
                n,
                name,
            ) || admits(nodes, tolerations, n, name),
        forall|name: Seq<char>| #[trigger]
            refused_among(nodes, tolerations, n + 1, name) <==> refused_among(
                nodes,
                tolerations,
                n,
                name,
            ) || refuses(nodes, tolerations, n, name),
{
    assert forall|name: Seq<char>| #[trigger]
        admitted_among(nodes, tolerations, n + 1, name) <==> admitted_among(
            nodes,
            tolerations,
            n,
            name,
        ) || admits(nodes, tolerations, n, name) by {
        if admitted_among(nodes, tolerations, n + 1, name) {
            let i = choose|i: int| 0 <= i < n + 1 && #[trigger] admits(nodes, tolerations, i, name);
            assert(i == n || i < n);
        }
    }
    assert forall|name: Seq<char>| #[trigger]
        refused_among(nodes, tolerations, n + 1, name) <==> refused_among(
            nodes,
            tolerations,
            n,
            name,
        ) || refuses(nodes, tolerations, n, name) by {
        if refused_among(nodes, tolerations, n + 1, name) {
            let i = choose|i: int|
                0 <= i < n + 1 && #[trigger] refuses(nodes, tolerations, i, name);
            assert(i == n || i < n);
        }
    }
}

/// A first refusal stays the first.
proof fn lemma_first_refusal_stays(
    nodes: Seq<NodeView>,
    tolerations: Seq<TolerationView>,
    n: int,
    name: Seq<char>,
    taint: TaintView,
)
    requires
        first_refusal(nodes, tolerations, n, name, taint),
    ensures
        first_refusal(nodes, tolerations, n + 1, name, taint),
{
    let i = choose|i: int|
        0 <= i < n && #[trigger] refuses(nodes, tolerations, i, name) && !refused_among(
            nodes,
            tolerations,
            i,
            name,
        ) && blocker(nodes[i], tolerations) == Some(taint);
    assert(refuses(nodes, tolerations, i, name));
}

/// The names of the nodes that a pod may run on, and the nodes that it may not run on with what
/// keeps it off, each in the order of their names and once.
///
/// A node matching several selectors arrives once per match, and both counts are reported to the
/// user.
pub fn partition_by_tolerations(nodes: &[Node], admission: &PodAdmission) -> (r: (
    Vec<String>,
    Vec<SkippedNode>,
))
    ensures
        is_partition(
            nodes.deep_view(),
            effective_tolerations(admission.tolerations.deep_view(), admission.host_network),
            nodes@.len() as int,
            r.0@,
            r.1@,
        ),
{
    let mut effective = admission.tolerations.clone();
    let mut implicit = daemonset_controller_tolerations(admission.host_network);
    proof {
        assert(effective.deep_view() =~= admission.tolerations.deep_view());
    }
    let ghost own = effective@;
    let ghost added = implicit@;
    effective.append(&mut implicit);
    let ghost tols = effective_tolerations(
        admission.tolerations.deep_view(),
        admission.host_network,
    );
    proof {
        assert(effective@ =~= own + added);
        assert(tols.len() == effective@.len());
        assert forall|k: int| 0 <= k < tols.len() implies tols[k] == #[trigger] effective@[
            k
        ].deep_view() by {
            if k < own.len() {
                assert(effective@[k] == own[k]);
                assert(admission.tolerations.deep_view()[k] == own[k].deep_view());
            } else {
                assert(effective@[k] == added[k - own.len()]);
                assert(implicit_tolerations(admission.host_network)[k - own.len()] == added[k
                    - own.len()].deep_view());
            }
        }
        assert(effective.deep_view() =~= tols);
    }
    let ghost all = nodes.deep_view();
    let mut admitted: Vec<String> = Vec::new();
    let mut skipped: Vec<SkippedNode> = Vec::new();
    let mut i: usize = 0;
    while i < nodes.len()
        invariant
            i <= nodes@.len(),
            all == nodes.deep_view(),
            tols == effective.deep_view(),
            is_partition(all, tols, i as int, admitted@, skipped@),
        decreases nodes@.len() - i,
    {
        let node = &nodes[i];
        let ghost old_skipped = skipped@;
        assert(all[i as int] == node.deep_view());
        match &node.metadata.name {
            Some(name) => {
                let name = name.clone();
                let tolerations = effective.as_slice();
                assert(tolerations.deep_view() =~= tols);
                proof {
                    lemma_among_next(all, tols, i as int);
                }
                match untolerated_taint(node_taints(node), tolerations) {
                    Some(taint) => {
                        let left_out = SkippedNode { name, taint: taint.clone() };
                        assert(refuses(all, tols, i as int, left_out.key()));
                        note_skipped(&mut skipped, left_out);
                        assert forall|k: int| 0 <= k < skipped@.len() implies first_refusal(
                            all,
                            tols,
                            i + 1,
                            #[trigger] skipped@[k].key(),
                            skipped@[k].taint.deep_view(),
                        ) by {
                            let at = skipped@[k];
                            if old_skipped.contains(at) {
                                let m = choose|m: int|
                                    0 <= m < old_skipped.len() && old_skipped[m] == at;
                                assert(old_skipped[m].key() == at.key());
                                lemma_first_refusal_stays(
                                    all,
                                    tols,
                                    i as int,
                                    at.key(),
                                    at.taint.deep_view(),
                                );
                            } else {
                                assert(at == left_out);
                                assert(!has_key(old_skipped, at.key()));
                                assert(!refused_among(all, tols, i as int, at.key()));
                                assert(refuses(all, tols, i as int, at.key()));
                            }
                        }
                    },
                    None => {
                        assert(admits(all, tols, i as int, name@));
                        note_admitted(&mut admitted, name);
                        assert forall|k: int| 0 <= k < skipped@.len() implies first_refusal(
                            all,
                            tols,
                            i + 1,
                            #[trigger] skipped@[k].key(),
                            skipped@[k].taint.deep_view(),
                        ) by {
                            lemma_first_refusal_stays(
                                all,
                                tols,
                                i as int,
                                skipped@[k].key(),
                                skipped@[k].taint.deep_view(),
                            );
                        }
                    },
                }
            },
            None => {
                proof {
                    lemma_partition_unnamed(all, tols, i as int, admitted@, skipped@);
                }
            },
        }
        i = i + 1;
    }
    (admitted, skipped)
}

// ---------------------------------------------------------------------------------------------
// Laws

/// A toleration with the operator `Exists` and neither key nor effect tolerates every taint.
pub proof fn law_exists_without_a_key_tolerates_everything(
    toleration: TolerationView,
    taint: TaintView,
)
    requires
        or_empty(toleration.key).len() == 0,
        or_empty(toleration.effect).len() == 0,
        toleration.operator == Some("Exists"@),
    ensures
        tolerated(toleration, taint),
{
}

/// A toleration with the operator `Exists` matches whatever value a taint has.
pub proof fn law_exists_ignores_the_value(
    toleration: TolerationView,
    taint: TaintView,
    value: Option<Seq<char>>,
)
    requires
        toleration.operator == Some("Exists"@),
    ensures
        tolerated(toleration, taint) == tolerated(toleration, TaintView { value, ..taint }),
{
}

/// A toleration with an operator other than `Exists` and `Equal` tolerates nothing, whatever its
/// value. An unset or empty operator is `Equal`.
pub proof fn law_only_exists_and_equal_tolerate(
    toleration: TolerationView,
    taint: TaintView,
)
    ensures
        tolerated(toleration, taint) ==> or_empty(toleration.operator).len() == 0
            || toleration.operator == Some("Equal"@) || toleration.operator == Some("Exists"@),
        or_empty(toleration.operator).len() == 0 ==> tolerated(toleration, taint) == tolerated(
            TolerationView { operator: Some("Equal"@), ..toleration },
            taint,
        ),
{
    reveal_strlit("Equal");
    reveal_strlit("Exists");
    assert("Equal"@.len() != "Exists"@.len());
}

/// The toleration that is suggested against a taint, added to whatever a pod tolerates, keeps that
/// taint from blocking it.
pub proof fn law_the_suggested_toleration_helps(
    taint: TaintView,
    tolerations: Seq<TolerationView>,
)
    ensures
        tolerated(exists_toleration(taint.key, taint.effect), taint),
        !untolerated(taint, tolerations.push(exists_toleration(taint.key, taint.effect))),
{
    let more = tolerations.push(exists_toleration(taint.key, taint.effect));
    assert(tolerated(more[tolerations.len() as int], taint));
}

/// A taint that only expresses a preference keeps no pod off a node.
pub proof fn law_a_preference_never_blocks(taint: TaintView, tolerations: Seq<TolerationView>)
    requires
        taint.effect == "PreferNoSchedule"@,
    ensures
        !untolerated(taint, tolerations),
{
    reveal_strlit("PreferNoSchedule");
    reveal_strlit("NoSchedule");
    reveal_strlit("NoExecute");
    assert(taint.effect.len() == 16);
}

/// The first untolerated taint is one of the taints, and those before it are tolerated or do not
/// block. There is none only if all of them are.
pub proof fn law_first_untolerated(taints: Seq<TaintView>, tolerations: Seq<TolerationView>)
    ensures
        match first_untolerated(taints, tolerations) {
            Some(taint) => exists|i: int|
                0 <= i < taints.len() && taints[i] == taint && untolerated(
                    #[trigger] taints[i],
                    tolerations,
                ) && forall|j: int| 0 <= j < i ==> !untolerated(#[trigger] taints[j], tolerations),
            None => forall|i: int|
                0 <= i < taints.len() ==> !untolerated(#[trigger] taints[i], tolerations),
        },
    decreases taints.len(),
{
    if taints.len() > 0 && untolerated(taints[0], tolerations) {
        assert(untolerated(taints[0], tolerations));
    } else if taints.len() > 0 {
        let rest = taints.drop_first();
        law_first_untolerated(rest, tolerations);
        match first_untolerated(rest, tolerations) {
            Some(taint) => {
                let i = choose|i: int|
                    0 <= i < rest.len() && rest[i] == taint && untolerated(
                        #[trigger] rest[i],
                        tolerations,
                    ) && forall|j: int|
                        0 <= j < i ==> !untolerated(#[trigger] rest[j], tolerations);
                assert(untolerated(taints[i + 1], tolerations));
                assert forall|j: int| 0 <= j < i + 1 implies !untolerated(
                    #[trigger] taints[j],
                    tolerations,
                ) by {
                    if j > 0 {
                        assert(rest[j - 1] == taints[j]);
                    }
                }
            },
            None => {
                assert forall|i: int| 0 <= i < taints.len() implies !untolerated(
                    #[trigger] taints[i],
                    tolerations,
                ) by {
                    if i > 0 {
                        assert(rest[i - 1] == taints[i]);
                    }
                }
            },
        }
    }
}

/// A node that lets a pod in still does when the pod tolerates more.
pub proof fn law_more_tolerations_admit_more(
    node: NodeView,
    fewer: Seq<TolerationView>,
    more: Seq<TolerationView>,
)
    requires
        forall|j: int| 0 <= j < fewer.len() ==> more.contains(#[trigger] fewer[j]),
        blocker(node, fewer) is None,
    ensures
        blocker(node, more) is None,
{
    let taints = taints_of(node);
    law_first_untolerated(taints, fewer);
    law_first_untolerated(taints, more);
    assert forall|i: int| 0 <= i < taints.len() implies !untolerated(
        #[trigger] taints[i],
        more,
    ) by {
        if untolerated(taints[i], more) {
            assert forall|j: int| 0 <= j < fewer.len() implies !tolerated(
                #[trigger] fewer[j],
                taints[i],
            ) by {
                let k = choose|k: int| 0 <= k < more.len() && more[k] == fewer[j];
                assert(!tolerated(more[k], taints[i]));
            }
            assert(untolerated(taints[i], fewer));
        }
    }
}

/// A taint with the key and the effect of an implicit toleration keeps no pod off a node,
/// whatever the template itself tolerates.
pub proof fn lemma_implicitly_tolerated(
    taint: TaintView,
    tolerations: Seq<TolerationView>,
    host_network: bool,
    k: int,
)
    requires
        0 <= k < implicit_tolerations(host_network).len(),
        implicit_tolerations(host_network)[k].key == Some(taint.key),
        implicit_tolerations(host_network)[k].effect == Some(taint.effect),
    ensures
        !untolerated(taint, effective_tolerations(tolerations, host_network)),
{
    let effective = effective_tolerations(tolerations, host_network);
    let at = tolerations.len() + k;
    assert(effective[at] == implicit_tolerations(host_network)[k]);
    assert(tolerated(effective[at], taint));
}

/// The taints of a node that is cordoned, not ready, unreachable or under pressure.
pub open spec fn daemonset_tolerated(taint: TaintView) -> bool {
    ||| taint.effect == "NoExecute"@ && (taint.key == "node.kubernetes.io/not-ready"@ || taint.key
        == "node.kubernetes.io/unreachable"@)
    ||| taint.effect == "NoSchedule"@ && (taint.key == "node.kubernetes.io/disk-pressure"@
        || taint.key == "node.kubernetes.io/memory-pressure"@ || taint.key
        == "node.kubernetes.io/pid-pressure"@ || taint.key == "node.kubernetes.io/unschedulable"@)
}

/// A node that is only cordoned, not ready, unreachable or under pressure stays admitted, as it
/// is for a DaemonSet.
pub proof fn law_cordoned_and_pressured_nodes_stay_admitted(
    node: NodeView,
    tolerations: Seq<TolerationView>,
    host_network: bool,
)
    requires
        forall|i: int|
            0 <= i < taints_of(node).len() ==> daemonset_tolerated(#[trigger] taints_of(node)[i])
                || !blocking(taints_of(node)[i].effect),
    ensures
        blocker(node, effective_tolerations(tolerations, host_network)) is None,
{
    let taints = taints_of(node);
    let effective = effective_tolerations(tolerations, host_network);
    law_first_untolerated(taints, effective);
    assert forall|i: int| 0 <= i < taints.len() implies !untolerated(
        #[trigger] taints[i],
        effective,
    ) by {
        let taint = taints[i];
        if daemonset_tolerated(taint) {
            let k = if taint.effect == "NoExecute"@ && taint.key
                == "node.kubernetes.io/not-ready"@ {
                0
            } else if taint.effect == "NoExecute"@ && taint.key
                == "node.kubernetes.io/unreachable"@ {
                1
            } else if taint.key == "node.kubernetes.io/disk-pressure"@ {
                2
            } else if taint.key == "node.kubernetes.io/memory-pressure"@ {
                3
            } else if taint.key == "node.kubernetes.io/pid-pressure"@ {
                4
            } else {
                5
            };
            lemma_implicitly_tolerated(taint, tolerations, host_network, k);
        }
    }
}

/// A node without network keeps out every pod that does not tolerate that itself, unless the pod
/// uses the network of the host.
pub proof fn law_a_node_without_network_takes_host_network_pods(
    taint: TaintView,
    tolerations: Seq<TolerationView>,
    host_network: bool,
)
    requires
        taint.key == "node.kubernetes.io/network-unavailable"@,
        taint.effect == "NoSchedule"@,
        forall|j: int| 0 <= j < tolerations.len() ==> !tolerated(#[trigger] tolerations[j], taint),
    ensures
        untolerated(taint, effective_tolerations(tolerations, host_network)) == !host_network,
{
    if host_network {
        lemma_implicitly_tolerated(taint, tolerations, host_network, 6);
    } else {
        let implicit = implicit_tolerations(false);
        let effective = effective_tolerations(tolerations, false);
        reveal_strlit("node.kubernetes.io/network-unavailable");
        reveal_strlit("node.kubernetes.io/not-ready");
        reveal_strlit("node.kubernetes.io/unreachable");
        reveal_strlit("node.kubernetes.io/disk-pressure");
        reveal_strlit("node.kubernetes.io/memory-pressure");
        reveal_strlit("node.kubernetes.io/pid-pressure");
        reveal_strlit("node.kubernetes.io/unschedulable");
        assert(taint.key.len() == 38);
        assert forall|j: int| 0 <= j < effective.len() implies !tolerated(
            #[trigger] effective[j],
            taint,
        ) by {
            if j < tolerations.len() {
                assert(effective[j] == tolerations[j]);
            } else {
                let k = j - tolerations.len();
                assert(effective[j] == implicit[k]);
                assert(implicit[k].key is Some && 0 < implicit[k].key->0.len() < 38);
            }
        }
    }
}

/// Every node with a name is reported on the side that its taints put it on. One whose name no
/// other node has is reported on that side only.
pub proof fn law_every_named_node_is_reported(
    nodes: Seq<NodeView>,
    tolerations: Seq<TolerationView>,
    admitted: Seq<String>,
    skipped: Seq<SkippedNode>,
    i: int,
)
    requires
        is_partition(nodes, tolerations, nodes.len() as int, admitted, skipped),
        0 <= i < nodes.len(),
        nodes[i].metadata.name is Some,
    ensures
        blocker(nodes[i], tolerations) is None ==> has_key(admitted, nodes[i].metadata.name->0),
        blocker(nodes[i], tolerations) is Some ==> has_key(skipped, nodes[i].metadata.name->0),
        (forall|j: int|
            0 <= j < nodes.len() && j != i ==> #[trigger] nodes[j].metadata.name
                != nodes[i].metadata.name) ==> has_key(admitted, nodes[i].metadata.name->0)
            != has_key(skipped, nodes[i].metadata.name->0),
{
    let n = nodes.len() as int;
    let name = nodes[i].metadata.name->0;
    assert(has_key(admitted, name) == admitted_among(nodes, tolerations, n, name));
    assert(has_key(skipped, name) == refused_among(nodes, tolerations, n, name));
    if blocker(nodes[i], tolerations) is None {
        assert(admits(nodes, tolerations, i, name));
    } else {
        assert(refuses(nodes, tolerations, i, name));
    }
}

/// Only names of nodes are reported: a node without a name is left out.
pub proof fn law_only_named_nodes_are_reported(
    nodes: Seq<NodeView>,
    tolerations: Seq<TolerationView>,
    admitted: Seq<String>,
    skipped: Seq<SkippedNode>,
    name: Seq<char>,
)
    requires
        is_partition(nodes, tolerations, nodes.len() as int, admitted, skipped),
        has_key(admitted, name) || has_key(skipped, name),
    ensures
        exists|i: int| 0 <= i < nodes.len() && #[trigger] nodes[i].metadata.name == Some(name),
{
    let n = nodes.len() as int;
    if has_key(admitted, name) {
        assert(admitted_among(nodes, tolerations, n, name));
        let i = choose|i: int| 0 <= i < n && #[trigger] admits(nodes, tolerations, i, name);
        assert(nodes[i].metadata.name == Some(name));
    } else {
        assert(refused_among(nodes, tolerations, n, name));
        let i = choose|i: int| 0 <= i < n && #[trigger] refuses(nodes, tolerations, i, name);
        assert(nodes[i].metadata.name == Some(name));
    }
}

/// The nodes decide what is reported: two partitions of the same nodes report the same.
pub proof fn law_partition_is_unique(
    nodes: Seq<NodeView>,
    tolerations: Seq<TolerationView>,
    admitted_a: Seq<String>,
    skipped_a: Seq<SkippedNode>,
    admitted_b: Seq<String>,
    skipped_b: Seq<SkippedNode>,
)
    requires
        is_partition(nodes, tolerations, nodes.len() as int, admitted_a, skipped_a),
        is_partition(nodes, tolerations, nodes.len() as int, admitted_b, skipped_b),
    ensures
        admitted_a.map_values(|s: String| s@) == admitted_b.map_values(|s: String| s@),
        skipped_a.map_values(|s: SkippedNode| (s.name@, s.taint.deep_view()))
            == skipped_b.map_values(|s: SkippedNode| (s.name@, s.taint.deep_view())),
{
    let n = nodes.len() as int;
    assert forall|key: Seq<char>| has_key(admitted_a, key) == has_key(admitted_b, key) by {
        assert(has_key(admitted_a, key) == admitted_among(nodes, tolerations, n, key));
    }
    assert forall|key: Seq<char>| has_key(skipped_a, key) == has_key(skipped_b, key) by {
        assert(has_key(skipped_a, key) == refused_among(nodes, tolerations, n, key));
    }
    lemma_same_keys(admitted_a, admitted_b);
    lemma_same_keys(skipped_a, skipped_b);
    assert(admitted_a.map_values(|s: String| s@) =~= admitted_b.map_values(|s: String| s@)) by {
        assert forall|k: int| 0 <= k < admitted_a.len() implies admitted_a[k]@
            == admitted_b[k]@ by {
            assert(admitted_a[k].key() == admitted_b[k].key());
        }
    }
    let pair = |s: SkippedNode| (s.name@, s.taint.deep_view());
    assert(skipped_a.map_values(pair) =~= skipped_b.map_values(pair)) by {
        assert forall|k: int| 0 <= k < skipped_a.len() implies pair(skipped_a[k]) == pair(
            skipped_b[k],
        ) by {
            let a = skipped_a[k];
            let b = skipped_b[k];
            assert(a.key() == b.key());
            let i = choose|i: int|
                0 <= i < n && #[trigger] refuses(nodes, tolerations, i, a.key()) && !refused_among(
                    nodes,
                    tolerations,
                    i,
                    a.key(),
                ) && blocker(nodes[i], tolerations) == Some(a.taint.deep_view());
            let j = choose|j: int|
                0 <= j < n && #[trigger] refuses(nodes, tolerations, j, b.key()) && !refused_among(
                    nodes,
                    tolerations,
                    j,
                    b.key(),
                ) && blocker(nodes[j], tolerations) == Some(b.taint.deep_view());
            assert(first_refusal(nodes, tolerations, n, a.key(), a.taint.deep_view()));
            assert(first_refusal(nodes, tolerations, n, b.key(), b.taint.deep_view()));
            assert(!(i < j) && !(j < i));
        }
    }
}

// ---------------------------------------------------------------------------------------------
// What decides

/// A taint reads key, equals sign, value, colon and effect. One whose value is unset or empty
/// reads key, colon and effect.
pub proof fn law_a_taint_reads_as_kubectl_spells_it(taint: TaintView)
    ensures
        taint.value is Some && taint.value->0.len() > 0 ==> taint_text(taint) == taint.key + "="@
            + taint.value->0 + ":"@ + taint.effect,
        taint.value is None || taint.value->0.len() == 0 ==> taint_text(taint) == taint.key + ":"@
            + taint.effect,
{
}

/// What is suggested against a taint names its key and its effect, whatever its value, and the
/// operator that ignores the value.
pub proof fn law_a_suggestion_names_key_and_effect(taint: TaintView)
    ensures
        toleration_text(taint) == "tolerations:\n  - key: "@ + taint.key
            + "\n    operator: Exists\n    effect: "@ + taint.effect,
{
}

/// A key that is set and not empty, and is not the taint's, tolerates nothing, whatever the
/// operator and the value, and so does such an effect. Where key and effect are unset, empty or
/// the taint's own, `Exists` tolerates; `Equal`, unset or empty tolerates exactly an equal value,
/// an unset one being empty; and any other operator tolerates nothing.
pub proof fn law_key_effect_and_operator_decide(toleration: TolerationView, taint: TaintView)
    ensures
        toleration.key is Some && toleration.key->0.len() > 0 && toleration.key->0 != taint.key
            ==> !tolerated(toleration, taint),
        toleration.effect is Some && toleration.effect->0.len() > 0 && toleration.effect->0
            != taint.effect ==> !tolerated(toleration, taint),
        (toleration.key is None || toleration.key->0.len() == 0 || toleration.key->0 == taint.key)
            && (toleration.effect is None || toleration.effect->0.len() == 0
            || toleration.effect->0 == taint.effect) ==> {
            let own = if toleration.value is Some {
                toleration.value->0
            } else {
                seq![]
            };
            let value = if taint.value is Some {
                taint.value->0
            } else {
                seq![]
            };
            &&& toleration.operator == Some("Exists"@) ==> tolerated(toleration, taint)
            &&& toleration.operator is None || toleration.operator->0.len() == 0
                || toleration.operator->0 == "Equal"@ ==> (tolerated(toleration, taint) <==> own
                == value)
            &&& toleration.operator is Some && toleration.operator->0.len() > 0
                && toleration.operator->0 != "Equal"@ && toleration.operator->0 != "Exists"@
                ==> !tolerated(toleration, taint)
        },
{
    reveal_strlit("Equal");
    reveal_strlit("Exists");
    assert("Equal"@.len() != "Exists"@.len());
}

/// A taint stands in the way exactly if its effect is `NoSchedule` or `NoExecute` and none of the
/// tolerations matches it: one that matches is enough, wherever it stands.
pub proof fn law_one_toleration_is_enough(
    taint: TaintView,
    tolerations: Seq<TolerationView>,
    toleration: TolerationView,
)
    ensures
        untolerated(taint, seq![]) <==> taint.effect == "NoSchedule"@ || taint.effect
            == "NoExecute"@,
        untolerated(taint, tolerations.push(toleration)) <==> untolerated(taint, tolerations)
            && !tolerated(toleration, taint),
        untolerated(taint, seq![toleration] + tolerations) <==> untolerated(taint, tolerations)
            && !tolerated(toleration, taint),
{
    let behind = tolerations.push(toleration);
    let before = seq![toleration] + tolerations;
    let n = tolerations.len() as int;
    assert(behind[n] == toleration);
    assert(before[0] == toleration);
    assert forall|j: int| 0 <= j < n implies behind[j] == #[trigger] tolerations[j] && before[j + 1]
        == tolerations[j] by {}
    assert forall|j: int| 0 < j <= n implies #[trigger] before[j] == tolerations[j - 1] by {}
    if !untolerated(taint, tolerations) && blocking(taint.effect) {
        let j = choose|j: int| 0 <= j < n && tolerated(#[trigger] tolerations[j], taint);
        assert(tolerated(behind[j], taint));
        assert(tolerated(before[j + 1], taint));
    }
}

/// The tolerations that a DaemonSet gets match the taints of a node that is cordoned, not ready,
/// unreachable or under pressure, for a host-network pod that of a node without network too, and
/// no others.
pub proof fn law_a_daemonset_tolerates_these_taints_alone(taint: TaintView, host_network: bool)
    ensures
        (exists|k: int|
            0 <= k < implicit_tolerations(host_network).len() && tolerated(
                #[trigger] implicit_tolerations(host_network)[k],
                taint,
            )) <==> daemonset_tolerated(taint) || (host_network && taint.key
            == "node.kubernetes.io/network-unavailable"@ && taint.effect == "NoSchedule"@),
{
    let all = implicit_tolerations(host_network);
    reveal_strlit("NoExecute");
    reveal_strlit("NoSchedule");
    reveal_strlit("node.kubernetes.io/network-unavailable");
    reveal_strlit("node.kubernetes.io/not-ready");
    reveal_strlit("node.kubernetes.io/unreachable");
    reveal_strlit("node.kubernetes.io/disk-pressure");
    reveal_strlit("node.kubernetes.io/memory-pressure");
    reveal_strlit("node.kubernetes.io/pid-pressure");
    reveal_strlit("node.kubernetes.io/unschedulable");
    assert(forall|k: int|
        0 <= k < all.len() ==> (tolerated(#[trigger] all[k], taint) <==> all[k].key == Some(
            taint.key,
        ) && all[k].effect == Some(taint.effect)));
    if daemonset_tolerated(taint) {
        if taint.key == "node.kubernetes.io/not-ready"@ {
            assert(tolerated(all[0], taint) || taint.effect != "NoExecute"@);
        }
        if taint.key == "node.kubernetes.io/unreachable"@ {
            assert(tolerated(all[1], taint) || taint.effect != "NoExecute"@);
        }
        if taint.key == "node.kubernetes.io/disk-pressure"@ {
            assert(tolerated(all[2], taint) || taint.effect != "NoSchedule"@);
        }
        if taint.key == "node.kubernetes.io/memory-pressure"@ {
            assert(tolerated(all[3], taint) || taint.effect != "NoSchedule"@);
        }
        if taint.key == "node.kubernetes.io/pid-pressure"@ {
            assert(tolerated(all[4], taint) || taint.effect != "NoSchedule"@);
        }
        if taint.key == "node.kubernetes.io/unschedulable"@ {
            assert(tolerated(all[5], taint) || taint.effect != "NoSchedule"@);
        }
    }
    if host_network && taint.key == "node.kubernetes.io/network-unavailable"@ && taint.effect
        == "NoSchedule"@ {
        assert(tolerated(all[6], taint));
    }
}

/// The taint keeps a pod off that tolerates what is listed and what a DaemonSet tolerates: its
/// effect is `NoSchedule` or `NoExecute`, and nothing tolerates it.
pub open spec fn held_off_by(
    taint: TaintView,
    tolerations: Seq<TolerationView>,
    host_network: bool,
) -> bool {
    &&& taint.effect == "NoSchedule"@ || taint.effect == "NoExecute"@
    &&& forall|j: int| 0 <= j < tolerations.len() ==> !tolerated(#[trigger] tolerations[j], taint)
    &&& !daemonset_tolerated(taint)
    &&& !(host_network && taint.key == "node.kubernetes.io/network-unavailable"@ && taint.effect
        == "NoSchedule"@)
}

/// No taint of the node keeps the pod off.
pub open spec fn open_to(
    node: NodeView,
    tolerations: Seq<TolerationView>,
    host_network: bool,
) -> bool {
    node.spec is Some && node.spec->0.taints is Some ==> forall|m: int|
        0 <= m < node.spec->0.taints->0.len() ==> !held_off_by(
            #[trigger] node.spec->0.taints->0[m],
            tolerations,
            host_network,
        )
}

/// Taint `m` of the node is the first that keeps the pod off.
pub open spec fn first_held_off_by(
    node: NodeView,
    tolerations: Seq<TolerationView>,
    host_network: bool,
    m: int,
) -> bool {
    &&& node.spec is Some
    &&& node.spec->0.taints is Some
    &&& 0 <= m < node.spec->0.taints->0.len()
    &&& held_off_by(node.spec->0.taints->0[m], tolerations, host_network)
    &&& forall|j: int|
        0 <= j < m ==> !held_off_by(
            #[trigger] node.spec->0.taints->0[j],
            tolerations,
            host_network,
        )
}

proof fn lemma_held_off(taint: TaintView, tolerations: Seq<TolerationView>, host_network: bool)
    ensures
        untolerated(taint, effective_tolerations(tolerations, host_network)) <==> held_off_by(
            taint,
            tolerations,
            host_network,
        ),
{
    let implicit = implicit_tolerations(host_network);
    let effective = effective_tolerations(tolerations, host_network);
    law_a_daemonset_tolerates_these_taints_alone(taint, host_network);
    assert(forall|j: int|
        0 <= j < tolerations.len() ==> #[trigger] tolerations[j] == effective[j]);
    assert(forall|k: int|
        0 <= k < implicit.len() ==> #[trigger] implicit[k] == effective[tolerations.len() + k]);
    if held_off_by(taint, tolerations, host_network) {
        assert forall|j: int| 0 <= j < effective.len() implies !tolerated(
            #[trigger] effective[j],
            taint,
        ) by {
            if j < tolerations.len() {
                assert(!tolerated(tolerations[j], taint));
            } else {
                assert(!tolerated(implicit[j - tolerations.len()], taint));
            }
        }
    }
    if untolerated(taint, effective) {
        assert forall|j: int| 0 <= j < tolerations.len() implies !tolerated(
            #[trigger] tolerations[j],
            taint,
        ) by {
            assert(!tolerated(effective[j], taint));
        }
        assert forall|k: int| 0 <= k < implicit.len() implies !tolerated(
            #[trigger] implicit[k],
            taint,
        ) by {
            assert(!tolerated(effective[tolerations.len() + k], taint));
        }
    }
}

/// A pod is let in exactly where no taint keeps it off, and is kept off by the first taint that
/// does.
pub proof fn law_the_first_taint_that_holds_off_is_the_blocker(
    node: NodeView,
    tolerations: Seq<TolerationView>,
    host_network: bool,
)
    ensures
        blocker(node, effective_tolerations(tolerations, host_network)) is None <==> open_to(
            node,
            tolerations,
            host_network,
        ),
        blocker(node, effective_tolerations(tolerations, host_network)) is Some ==> exists|m: int|
            #[trigger] first_held_off_by(node, tolerations, host_network, m) && blocker(
                node,
                effective_tolerations(tolerations, host_network),
            ) == Some(node.spec->0.taints->0[m]),
{
    let effective = effective_tolerations(tolerations, host_network);
    let taints = taints_of(node);
    law_first_untolerated(taints, effective);
    assert forall|m: int| 0 <= m < taints.len() implies (untolerated(
        #[trigger] taints[m],
        effective,
    ) <==> held_off_by(taints[m], tolerations, host_network)) by {
        lemma_held_off(taints[m], tolerations, host_network);
    }
    match first_untolerated(taints, effective) {
        Some(taint) => {
            let m = choose|m: int|
                0 <= m < taints.len() && taints[m] == taint && untolerated(
                    #[trigger] taints[m],
                    effective,
                ) && forall|j: int| 0 <= j < m ==> !untolerated(#[trigger] taints[j], effective);
            assert(held_off_by(taints[m], tolerations, host_network));
            assert(first_held_off_by(node, tolerations, host_network, m));
        },
        None => {
            if node.spec is Some && node.spec->0.taints is Some {
                assert forall|m: int| 0 <= m < node.spec->0.taints->0.len() implies !held_off_by(
                    #[trigger] node.spec->0.taints->0[m],
                    tolerations,
                    host_network,
                ) by {
                    assert(!untolerated(taints[m], effective));
                }
            }
        },
    }
}

/// A name is admitted only if a node of this name lets the pod in.
pub proof fn law_an_admitted_name_is_of_a_node_that_lets_in(
    nodes: Seq<NodeView>,
    tolerations: Seq<TolerationView>,
    host_network: bool,
    admitted: Seq<String>,
    skipped: Seq<SkippedNode>,
    k: int,
)
    requires
        is_partition(
            nodes,
            effective_tolerations(tolerations, host_network),
            nodes.len() as int,
            admitted,
            skipped,
        ),
        0 <= k < admitted.len(),
    ensures
        exists|i: int|
            0 <= i < nodes.len() && (#[trigger] nodes[i]).metadata.name == Some(admitted[k]@)
                && open_to(nodes[i], tolerations, host_network),
{
    let n = nodes.len() as int;
    let effective = effective_tolerations(tolerations, host_network);
    let name = admitted[k].key();
    assert(has_key(admitted, name));
    assert(admitted_among(nodes, effective, n, name));
    let i = choose|i: int| 0 <= i < n && #[trigger] admits(nodes, effective, i, name);
    law_the_first_taint_that_holds_off_is_the_blocker(nodes[i], tolerations, host_network);
    assert(nodes[i].metadata.name == Some(admitted[k]@));
}

/// A name is skipped only if a node of this name keeps the pod off. It comes with the first taint
/// that keeps the pod off the first such node.
pub proof fn law_a_skipped_name_comes_with_its_first_taint(
    nodes: Seq<NodeView>,
    tolerations: Seq<TolerationView>,
    host_network: bool,
    admitted: Seq<String>,
    skipped: Seq<SkippedNode>,
    k: int,
)
    requires
        is_partition(
            nodes,
            effective_tolerations(tolerations, host_network),
            nodes.len() as int,
            admitted,
            skipped,
        ),
        0 <= k < skipped.len(),
    ensures
        exists|i: int, m: int|
            {
                &&& 0 <= i < nodes.len()
                &&& nodes[i].metadata.name == Some(skipped[k].name@)
                &&& #[trigger] first_held_off_by(nodes[i], tolerations, host_network, m)
                &&& skipped[k].taint.deep_view() == nodes[i].spec->0.taints->0[m]
                &&& forall|j: int|
                    0 <= j < i && (#[trigger] nodes[j]).metadata.name == nodes[i].metadata.name
                        ==> open_to(nodes[j], tolerations, host_network)
            },
{
    let n = nodes.len() as int;
    let effective = effective_tolerations(tolerations, host_network);
    let name = skipped[k].key();
    let taint = skipped[k].taint.deep_view();
    assert(first_refusal(nodes, effective, n, name, taint));
    let i = choose|i: int|
        0 <= i < n && #[trigger] refuses(nodes, effective, i, name) && !refused_among(
            nodes,
            effective,
            i,
            name,
        ) && blocker(nodes[i], effective) == Some(taint);
    law_the_first_taint_that_holds_off_is_the_blocker(nodes[i], tolerations, host_network);
    let m = choose|m: int|
        #[trigger] first_held_off_by(nodes[i], tolerations, host_network, m) && blocker(
            nodes[i],
            effective,
        ) == Some(nodes[i].spec->0.taints->0[m]);
    assert forall|j: int|
        0 <= j < i && (#[trigger] nodes[j]).metadata.name == nodes[i].metadata.name implies open_to(
        nodes[j],
        tolerations,
        host_network,
    ) by {
        law_the_first_taint_that_holds_off_is_the_blocker(nodes[j], tolerations, host_network);
        assert(!refuses(nodes, effective, j, name));
    }
    assert(first_held_off_by(nodes[i], tolerations, host_network, m));
}

/// A node with a name that lets the pod in has its name among the admitted, and one that keeps it
/// off among the skipped.
pub proof fn law_a_named_node_is_on_its_side(
    nodes: Seq<NodeView>,
    tolerations: Seq<TolerationView>,
    host_network: bool,
    admitted: Seq<String>,
    skipped: Seq<SkippedNode>,
    i: int,
)
    requires
        is_partition(
            nodes,
            effective_tolerations(tolerations, host_network),
            nodes.len() as int,
            admitted,
            skipped,
        ),
        0 <= i < nodes.len(),
        nodes[i].metadata.name is Some,
    ensures
        open_to(nodes[i], tolerations, host_network) ==> exists|k: int|
            0 <= k < admitted.len() && (#[trigger] admitted[k])@ == nodes[i].metadata.name->0,
        !open_to(nodes[i], tolerations, host_network) ==> exists|k: int|
            0 <= k < skipped.len() && (#[trigger] skipped[k]).name@ == nodes[i].metadata.name->0,
{
    let effective = effective_tolerations(tolerations, host_network);
    let name = nodes[i].metadata.name->0;
    law_the_first_taint_that_holds_off_is_the_blocker(nodes[i], tolerations, host_network);
    law_every_named_node_is_reported(nodes, effective, admitted, skipped, i);
    if open_to(nodes[i], tolerations, host_network) {
        let k = choose|k: int| 0 <= k < admitted.len() && #[trigger] admitted[k].key() == name;
        assert(admitted[k]@ == name);
    } else {
        let k = choose|k: int| 0 <= k < skipped.len() && #[trigger] skipped[k].key() == name;
        assert(skipped[k].name@ == name);
    }
}

/// Both sides are in the order of the names, each name once.
pub proof fn law_both_sides_are_in_order(
    nodes: Seq<NodeView>,
    tolerations: Seq<TolerationView>,
    host_network: bool,
    admitted: Seq<String>,
    skipped: Seq<SkippedNode>,
    i: int,
    j: int,
)
    requires
        is_partition(
            nodes,
            effective_tolerations(tolerations, host_network),
            nodes.len() as int,
            admitted,
            skipped,
        ),
        0 <= i < j,
    ensures
        j < admitted.len() ==> text_lt(admitted[i]@, admitted[j]@),
        j < skipped.len() ==> text_lt(skipped[i].name@, skipped[j].name@),
{
    if j < admitted.len() {
        assert(text_lt(admitted[i].key(), admitted[j].key()));
    }
    if j < skipped.len() {
        assert(text_lt(skipped[i].key(), skipped[j].key()));
    }
}

} // verus!
