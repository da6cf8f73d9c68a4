//! Names that Kubernetes accepts, made from text that it might not.
use vstd::prelude::*;
use vstd::string::*;
use vstd::utf8::*;

use crate::digest::{sha256, sha256_of, MAX_DIGEST_INPUT};
use crate::numerals::{
    hex,
    hex_of,
    is_hex_digit,
    law_hexadecimals_stand_byte_by_byte,
    law_hexadecimals_tell_bytes_apart,
    lemma_hex,
};
use crate::text::{
    byte_count,
    byte_len,
    chars_of,
    lemma_byte_len_bounds,
    lemma_byte_len_concat,
    same_text,
};
use crate::trim::{
    lemma_trim,
    lemma_trim_end,
    lemma_trim_nothing,
    lemma_trim_start,
    only,
    trim,
    trim_end,
    trim_end_of,
    trim_of,
};

verus! {

/// Limit on both a DNS-1123 label and a Kubernetes label value.
pub const MAX_LABEL_LEN: usize = 63;

/// How many bytes of a digest tell two identities apart.
pub const HASH_BYTES: usize = 12;

/// How many characters of a name are kept in front of a hash and the dash before it.
pub const KEPT_CHARS: usize = 38;

// ---------------------------------------------------------------------------------------------
// Sanitizing

/// The characters of a DNS-1123 label.
pub open spec fn is_label_char(c: char) -> bool {
    'a' <= c <= 'z' || '0' <= c <= '9' || c == '-'
}

/// A DNS-1123 label, which is a valid label value too.
pub open spec fn is_dns_label(s: Seq<char>) -> bool {
    &&& 0 < s.len() <= MAX_LABEL_LEN
    &&& forall|i: int| 0 <= i < s.len() ==> is_label_char(#[trigger] s[i])
    &&& s[0] != '-'
    &&& s.last() != '-'
}

/// What a character of a name becomes in a label: letters turn lower-case, and what no label may
/// hold turns into a dash.
pub open spec fn label_char(c: char) -> char {
    if 'A' <= c <= 'Z' {
        ((c as u8) + 32) as u8 as char
    } else if is_label_char(c) {
        c
    } else {
        '-'
    }
}

/// A name with every character fit for a label, and no dash at its ends.
pub open spec fn sanitized(name: Seq<char>) -> Seq<char> {
    trim(name.map_values(|c: char| label_char(c)), only('-'))
}

fn label_char_of(c: char) -> (r: char)
    ensures
        r == label_char(c),
{
    if 'A' <= c && c <= 'Z' {
        (c as u8 + 32) as char
    } else if ('a' <= c && c <= 'z') || ('0' <= c && c <= '9') || c == '-' {
        c
    } else {
        '-'
    }
}

/// A node's name with every character fit for a label, and no dash at its ends.
pub fn sanitize_node(node: &str) -> (r: String)
    ensures
        r@ == sanitized(node@),
{
    let chars = chars_of(node);
    let ghost wanted = node@.map_values(|c: char| label_char(c));
    let mut mapped = String::new();
    let mut i: usize = 0;
    while i < chars.len()
        invariant
            chars@ == node@,
            wanted == node@.map_values(|c: char| label_char(c)),
            i <= chars.len(),
            mapped@ == wanted.take(i as int),
        decreases chars.len() - i,
    {
        mapped.push(label_char_of(chars[i]));
        assert(wanted.take(i + 1) =~= wanted.take(i as int).push(wanted[i as int]));
        i = i + 1;
    }
    assert(wanted.take(wanted.len() as int) =~= wanted);
    trim_of(mapped.as_str(), '-').to_owned()
}

/// Sanitized text holds nothing that a label may not hold, and no dash at its ends.
pub proof fn lemma_sanitized(name: Seq<char>)
    ensures
        forall|i: int| 0 <= i < sanitized(name).len() ==> is_label_char(
            #[trigger] sanitized(name)[i],
        ),
        sanitized(name).len() > 0 ==> sanitized(name)[0] != '-' && sanitized(name).last() != '-',
        sanitized(name).len() <= name.len(),
{
    let mapped = name.map_values(|c: char| label_char(c));
    lemma_trim(mapped, only('-'));
    let (from, to) = choose|from: int, to: int|
        0 <= from <= to <= mapped.len() && trim(mapped, only('-')) == #[trigger] mapped.subrange(
            from,
            to,
        );
    assert forall|i: int| 0 <= i < sanitized(name).len() implies is_label_char(
        #[trigger] sanitized(name)[i],
    ) by {
        assert(sanitized(name)[i] == label_char(name[from + i]));
    }
}

/// Text that holds nothing but characters of a label, with no dash at its ends, stays as it is.
pub proof fn lemma_sanitized_already(name: Seq<char>)
    requires
        forall|i: int| 0 <= i < name.len() ==> is_label_char(#[trigger] name[i]),
        name.len() > 0 ==> name[0] != '-' && name.last() != '-',
    ensures
        sanitized(name) == name,
{
    let mapped = name.map_values(|c: char| label_char(c));
    assert(mapped =~= name);
    lemma_trim_nothing(name, only('-'));
}

// ---------------------------------------------------------------------------------------------
// Hashes

/// A hash as it stands in a name.
pub open spec fn is_short_hash(hash: Seq<char>) -> bool {
    &&& hash.len() == 2 * HASH_BYTES
    &&& forall|i: int| 0 <= i < hash.len() ==> is_hex_digit(#[trigger] hash[i])
}

/// The start of a digest, as it stands in a name.
pub open spec fn digest_text(digest: Seq<u8>) -> Seq<char> {
    hex(Seq::new(HASH_BYTES as nat, |i: int| digest[i]))
}

/// The hash of `s`, as it stands in a name.
pub open spec fn short_hash_text(s: Seq<char>) -> Seq<char> {
    digest_text(sha256(encode_utf8(s)))
}

/// The start of a digest, as it stands in a name.
pub fn digest_prefix(digest: &[u8]) -> (hash: String)
    requires
        digest@.len() >= HASH_BYTES,
    ensures
        hash@ == digest_text(digest@),
        is_short_hash(hash@),
{
    proof {
        lemma_digest_text(digest@);
        assert(digest@.take(HASH_BYTES as int) =~= Seq::new(
            HASH_BYTES as nat,
            |i: int| digest@[i],
        ));
    }
    hex_of(digest, HASH_BYTES)
}

proof fn lemma_digest_text(digest: Seq<u8>)
    ensures
        is_short_hash(digest_text(digest)),
{
    lemma_hex(Seq::new(HASH_BYTES as nat, |i: int| digest[i]));
}

/// The hash of `s`, as it stands in a name.
pub fn short_hash(s: &str) -> (hash: String)
    requires
        byte_len(s@) <= MAX_DIGEST_INPUT,
    ensures
        hash@ == short_hash_text(s@),
        is_short_hash(hash@),
{
    let digest = sha256_of(s.as_bytes());
    digest_prefix(digest.as_slice())
}

/// The first `n` characters of `s`, or all of it.
pub open spec fn first_chars(s: Seq<char>, n: int) -> Seq<char> {
    if s.len() <= n {
        s
    } else {
        s.take(n)
    }
}

/// What is kept of `s` in front of a hash.
pub open spec fn kept(s: Seq<char>) -> Seq<char> {
    trim_end(first_chars(s, KEPT_CHARS as int), only('-'))
}

fn kept_of(s: &str) -> (r: String)
    ensures
        r@ == kept(s@),
{
    let chars = chars_of(s);
    if chars.len() <= KEPT_CHARS {
        trim_end_of(s, '-').to_owned()
    } else {
        let start = s.substring_char(0, KEPT_CHARS);
        assert(s@.subrange(0, KEPT_CHARS as int) =~= s@.take(KEPT_CHARS as int));
        trim_end_of(start, '-').to_owned()
    }
}

/// What is kept is a prefix without a dash at its end.
proof fn lemma_kept(s: Seq<char>)
    ensures
        kept(s).len() <= KEPT_CHARS,
        kept(s).len() <= s.len(),
        kept(s) == s.take(kept(s).len() as int),
        kept(s).len() > 0 ==> kept(s).last() != '-',
        s.len() > 0 && s[0] != '-' ==> kept(s).len() > 0 && kept(s)[0] == s[0],
{
    let start = first_chars(s, KEPT_CHARS as int);
    lemma_trim_end(start, only('-'));
    let n = kept(s).len() as int;
    assert(start.take(n) =~= s.take(n));
    if s.len() > 0 && s[0] != '-' {
        if n == 0 {
            assert(only('-')(start[0]));
        }
    }
}

// ---------------------------------------------------------------------------------------------
// Job names

/// What a Job is called if nothing stands against it.
pub open spec fn job_base(prefix: Seq<char>, node: Seq<char>) -> Seq<char> {
    prefix + "-"@ + sanitized(node)
}

/// A name is used verbatim only when there is one, sanitizing changed nothing and it fits.
pub open spec fn job_name_fits(prefix: Seq<char>, node: Seq<char>) -> bool {
    node.len() > 0 && sanitized(node) == node && byte_len(job_base(prefix, node)) <= MAX_LABEL_LEN
}

/// A Job's name with a hash at its end.
pub open spec fn hashed_job_text(
    prefix: Seq<char>,
    node: Seq<char>,
    hash: Seq<char>,
) -> Seq<char> {
    kept(job_base(prefix, node)) + "-"@ + hash
}

/// What tells one Job from another: its prefix and its node.
pub open spec fn job_identity(prefix: Seq<char>, node: Seq<char>) -> Seq<char> {
    prefix + seq!['\0'] + node
}

/// The Job's name, given the hash of its identity.
pub open spec fn job_text(prefix: Seq<char>, node: Seq<char>, hash: Seq<char>) -> Seq<char> {
    if job_name_fits(prefix, node) {
        job_base(prefix, node)
    } else {
        hashed_job_text(prefix, node, hash)
    }
}

/// The Job's name.
pub open spec fn job_name_of(prefix: Seq<char>, node: Seq<char>) -> Seq<char> {
    job_text(prefix, node, short_hash_text(job_identity(prefix, node)))
}

/// The name with a hash at its end that a Job gets when its own name cannot be used verbatim.
pub fn hashed_job_name(prefix: &str, node: &str, hash: &str) -> (r: String)
    ensures
        r@ == hashed_job_text(prefix@, node@, hash@),
{
    let mut base = prefix.to_owned();
    base.append("-");
    base.append(sanitize_node(node).as_str());
    let mut r = kept_of(base.as_str());
    r.append("-");
    r.append(hash);
    r
}

/// A deterministic, DNS-1123-safe Job name for a node. A name is used verbatim only when there is
/// one, sanitizing changed nothing and it fits; otherwise a hash of the full prefix-and-node
/// identity is appended, so that neither a long node name, a long release prefix, nor two names
/// that normalize alike can collide.
///
/// The derivation is free to change between releases: an earlier run's Jobs are found through
/// the owner label and their `ownerReference`, never by recomputing what they would be called
/// today.
pub fn job_name(prefix: &str, node: &str) -> (r: String)
    requires
        byte_len(prefix@) + 1 + byte_len(node@) <= MAX_DIGEST_INPUT,
    ensures
        r@ == job_name_of(prefix@, node@),
        is_job_prefix(prefix@) ==> is_dns_label(r@),
        r@.len() <= MAX_LABEL_LEN,
{
    let clean = sanitize_node(node);
    let mut base = prefix.to_owned();
    base.append("-");
    base.append(clean.as_str());
    if !node.is_empty() && same_text(clean.as_str(), node) && byte_count(base.as_str())
        <= MAX_LABEL_LEN {
        proof {
            lemma_byte_len_bounds(base@);
            if is_job_prefix(prefix@) {
                lemma_fitting_job_name(prefix@, node@);
            }
        }
        return base;
    }
    let mut identity = prefix.to_owned();
    identity.push('\0');
    identity.append(node);
    proof {
        assert(identity@ =~= job_identity(prefix@, node@));
        lemma_byte_len_concat(prefix@ + seq!['\0'], node@);
        lemma_byte_len_concat(prefix@, seq!['\0']);
        lemma_nul_is_one_byte();
    }
    let hash = short_hash(identity.as_str());
    let r = hashed_job_name(prefix, node, hash.as_str());
    proof {
        law_job_name_is_a_dns_label(prefix@, node@, hash@);
    }
    r
}

proof fn lemma_nul_is_one_byte()
    ensures
        byte_len(seq!['\0']) == 1,
{
    let nul = seq!['\0'];
    assert(is_ascii_chars(nul));
    is_ascii_chars_encode_utf8(nul);
}

/// A prefix for Job names: characters of a label, and no dash in front.
pub open spec fn is_job_prefix(prefix: Seq<char>) -> bool {
    &&& prefix.len() > 0
    &&& forall|i: int| 0 <= i < prefix.len() ==> is_label_char(#[trigger] prefix[i])
    &&& prefix[0] != '-'
}

/// A Job's name that is used verbatim is a DNS-1123 label.
proof fn lemma_fitting_job_name(prefix: Seq<char>, node: Seq<char>)
    requires
        is_job_prefix(prefix),
        job_name_fits(prefix, node),
    ensures
        is_dns_label(job_base(prefix, node)),
{
    reveal_strlit("-");
    let base = job_base(prefix, node);
    lemma_byte_len_bounds(base);
    lemma_job_base_chars(prefix, node);
    lemma_sanitized(node);
    assert(base.last() == node.last());
}

proof fn lemma_job_base_chars(prefix: Seq<char>, node: Seq<char>)
    requires
        is_job_prefix(prefix),
    ensures
        job_base(prefix, node).len() > 0,
        job_base(prefix, node)[0] == prefix[0],
        forall|i: int| 0 <= i < job_base(prefix, node).len() ==> is_label_char(
            #[trigger] job_base(prefix, node)[i],
        ),
{
    reveal_strlit("-");
    lemma_sanitized(node);
    let base = job_base(prefix, node);
    assert forall|i: int| 0 <= i < base.len() implies is_label_char(#[trigger] base[i]) by {
        if i < prefix.len() {
            assert(base[i] == prefix[i]);
        } else if i > prefix.len() {
            assert(base[i] == sanitized(node)[i - prefix.len() - 1]);
        }
    }
}

/// Whatever the node is called, its Job's name is a DNS-1123 label if the prefix has nothing but
/// characters of a label and no dash in front, however long it is. Of any prefix at all the name
/// has no more characters than a label may have.
pub proof fn law_job_name_is_a_dns_label(prefix: Seq<char>, node: Seq<char>, hash: Seq<char>)
    requires
        is_short_hash(hash),
    ensures
        is_job_prefix(prefix) ==> is_dns_label(job_text(prefix, node, hash)),
        job_text(prefix, node, hash).len() <= MAX_LABEL_LEN,
{
    reveal_strlit("-");
    let base = job_base(prefix, node);
    lemma_kept(base);
    lemma_byte_len_bounds(base);
    if is_job_prefix(prefix) {
        lemma_job_base_chars(prefix, node);
        if job_name_fits(prefix, node) {
            lemma_fitting_job_name(prefix, node);
        } else {
            lemma_hashed_chars(kept(base), hash);
        }
    }
}

/// Characters of a label, a dash and a hash make a DNS-1123 label.
proof fn lemma_hashed_chars(start: Seq<char>, hash: Seq<char>)
    requires
        is_short_hash(hash),
        0 < start.len() <= KEPT_CHARS,
        start[0] != '-',
        forall|i: int| 0 <= i < start.len() ==> is_label_char(#[trigger] start[i]),
    ensures
        is_dns_label(start + "-"@ + hash),
{
    reveal_strlit("-");
    let name = start + "-"@ + hash;
    assert forall|i: int| 0 <= i < name.len() implies is_label_char(#[trigger] name[i]) by {
        if i < start.len() {
            assert(name[i] == start[i]);
        } else if i > start.len() {
            let c = hash[i - start.len() - 1];
            assert(name[i] == c);
            assert(is_hex_digit(c));
        }
    }
    assert(name.last() == hash[hash.len() - 1]);
    assert(is_hex_digit(hash[hash.len() - 1]));
    assert(name[0] == start[0]);
}

// ---------------------------------------------------------------------------------------------
// Label values

/// A value is used verbatim only when there is one, sanitizing changed nothing and it fits.
pub open spec fn label_value_fits(value: Seq<char>) -> bool {
    value.len() > 0 && sanitized(value) == value && byte_len(value) <= MAX_LABEL_LEN
}

/// A label value with a hash at its end. Where sanitizing leaves nothing, it has a name to start
/// with all the same.
pub open spec fn hashed_label_text(value: Seq<char>, hash: Seq<char>) -> Seq<char> {
    let start = kept(sanitized(value));
    if start.len() == 0 {
        "dispatcher"@ + "-"@ + hash
    } else {
        start + "-"@ + hash
    }
}

/// The label value, given the hash of the value that it is made from.
pub open spec fn label_text(value: Seq<char>, hash: Seq<char>) -> Seq<char> {
    if label_value_fits(value) {
        value
    } else {
        hashed_label_text(value, hash)
    }
}

/// The label value.
pub open spec fn label_value_of(value: Seq<char>) -> Seq<char> {
    label_text(value, short_hash_text(value))
}

/// The label value with a hash at its end that stands for a value that cannot be used verbatim.
pub fn hashed_label_value(value: &str, hash: &str) -> (r: String)
    ensures
        r@ == hashed_label_text(value@, hash@),
{
    let start = kept_of(sanitize_node(value).as_str());
    let mut r = if start.as_str().is_empty() {
        "dispatcher".to_owned()
    } else {
        start
    };
    r.append("-");
    r.append(hash);
    r
}

/// Sanitize into a value safe as both a DNS-1123 Job-name prefix and a label value, so that
/// callers can pass a raw value (a Helm release name, say) without risking an invalid or
/// over-long one. Hash-suffixed whenever sanitizing changed the value or there is none, so two
/// distinct releases cannot normalize onto one identity.
pub fn sanitize_label_value(value: &str) -> (r: String)
    requires
        byte_len(value@) <= MAX_DIGEST_INPUT,
    ensures
        r@ == label_value_of(value@),
        is_dns_label(r@),
{
    let clean = sanitize_node(value);
    if !value.is_empty() && same_text(clean.as_str(), value) && byte_count(clean.as_str())
        <= MAX_LABEL_LEN {
        proof {
            lemma_sanitized(value@);
            lemma_byte_len_bounds(value@);
        }
        return clean;
    }
    let hash = short_hash(value);
    let r = hashed_label_value(value, hash.as_str());
    proof {
        law_label_value_is_safe(value@, hash@);
    }
    r
}

/// Whatever a value holds, the label value made from it is a DNS-1123 label, and so a valid label
/// value and a valid prefix for Job names.
pub proof fn law_label_value_is_safe(value: Seq<char>, hash: Seq<char>)
    requires
        is_short_hash(hash),
    ensures
        is_dns_label(label_text(value, hash)),
        is_job_prefix(label_text(value, hash)),
{
    lemma_sanitized(value);
    lemma_byte_len_bounds(value);
    if !label_value_fits(value) {
        let clean = sanitized(value);
        lemma_kept(clean);
        if kept(clean).len() == 0 {
            reveal_strlit("dispatcher");
            lemma_hashed_chars("dispatcher"@, hash);
        } else {
            assert(kept(clean)[0] == clean[0]);
            lemma_hashed_chars(kept(clean), hash);
        }
    }
}

// ---------------------------------------------------------------------------------------------
// Laws

/// Sanitizing what is sanitized changes nothing.
pub proof fn law_sanitizing_is_idempotent(name: Seq<char>)
    ensures
        sanitized(sanitized(name)) == sanitized(name),
{
    lemma_sanitized(name);
    lemma_sanitized_already(sanitized(name));
}

/// A DNS-1123 label is its own label value.
pub proof fn law_a_dns_label_is_its_own_label_value(value: Seq<char>, hash: Seq<char>)
    requires
        is_dns_label(value),
    ensures
        label_text(value, hash) == value,
{
    lemma_sanitized_already(value);
    assert(is_ascii_chars(value)) by {
        assert forall|i: int| 0 <= i < value.len() implies '\0' <= #[trigger] value[i]
            <= '\u{7f}' by {
            assert(is_label_char(value[i]));
        }
    }
    is_ascii_chars_encode_utf8(value);
}

/// The label value of a label value is the label value itself.
pub proof fn law_label_values_are_stable(
    value: Seq<char>,
    hash: Seq<char>,
    other_hash: Seq<char>,
)
    requires
        is_short_hash(hash),
    ensures
        label_text(label_text(value, hash), other_hash) == label_text(value, hash),
{
    law_label_value_is_safe(value, hash);
    law_a_dns_label_is_its_own_label_value(label_text(value, hash), other_hash);
}

/// Two texts with a hash each at their ends are equal only if the hashes are.
proof fn lemma_same_hash(a: Seq<char>, hash_a: Seq<char>, b: Seq<char>, hash_b: Seq<char>)
    requires
        is_short_hash(hash_a),
        is_short_hash(hash_b),
        a + hash_a == b + hash_b,
    ensures
        hash_a == hash_b,
{
    assert((a + hash_a).skip(a.len() as int) =~= hash_a);
    assert((b + hash_b).skip(b.len() as int) =~= hash_b);
    assert((a + hash_a).len() == (b + hash_b).len());
}

/// When two values get the same label value, one of three things holds: they are the same value,
/// both got a hash and the hashes are the same, or one of them is, letter for letter, what the
/// other got with its hash. So no two values that are used verbatim are confused, and none that
/// only normalize alike.
pub proof fn law_equal_label_values(
    value_a: Seq<char>,
    hash_a: Seq<char>,
    value_b: Seq<char>,
    hash_b: Seq<char>,
)
    requires
        is_short_hash(hash_a),
        is_short_hash(hash_b),
        label_text(value_a, hash_a) == label_text(value_b, hash_b),
    ensures
        ({
            ||| label_value_fits(value_a) && label_value_fits(value_b) && value_a == value_b
            ||| !label_value_fits(value_a) && !label_value_fits(value_b) && hash_a == hash_b
            ||| label_value_fits(value_a) && !label_value_fits(value_b) && value_a
                == hashed_label_text(value_b, hash_b)
            ||| !label_value_fits(value_a) && label_value_fits(value_b) && value_b
                == hashed_label_text(value_a, hash_a)
        }),
{
    if !label_value_fits(value_a) && !label_value_fits(value_b) {
        let start_a = if kept(sanitized(value_a)).len() == 0 {
            "dispatcher"@
        } else {
            kept(sanitized(value_a))
        };
        let start_b = if kept(sanitized(value_b)).len() == 0 {
            "dispatcher"@
        } else {
            kept(sanitized(value_b))
        };
        lemma_same_hash(start_a + "-"@, hash_a, start_b + "-"@, hash_b);
    }
}

/// When two Jobs get the same name, one of three things holds: both names were used verbatim and
/// spell the same, which under one prefix only the same node does; both got a hash and the hashes
/// are the same; or one of them spells, letter for letter, what the other got with its hash.
pub proof fn law_equal_job_names(
    prefix_a: Seq<char>,
    node_a: Seq<char>,
    hash_a: Seq<char>,
    prefix_b: Seq<char>,
    node_b: Seq<char>,
    hash_b: Seq<char>,
)
    requires
        is_short_hash(hash_a),
        is_short_hash(hash_b),
        job_text(prefix_a, node_a, hash_a) == job_text(prefix_b, node_b, hash_b),
    ensures
        ({
            ||| job_name_fits(prefix_a, node_a) && job_name_fits(prefix_b, node_b) && (prefix_a
                == prefix_b ==> node_a == node_b)
            ||| !job_name_fits(prefix_a, node_a) && !job_name_fits(prefix_b, node_b) && hash_a
                == hash_b
            ||| job_name_fits(prefix_a, node_a) && !job_name_fits(prefix_b, node_b) && job_base(
                prefix_a,
                node_a,
            ) == hashed_job_text(prefix_b, node_b, hash_b)
            ||| !job_name_fits(prefix_a, node_a) && job_name_fits(prefix_b, node_b) && job_base(
                prefix_b,
                node_b,
            ) == hashed_job_text(prefix_a, node_a, hash_a)
        }),
{
    if job_name_fits(prefix_a, node_a) && job_name_fits(prefix_b, node_b) && prefix_a
        == prefix_b {
        let n = (prefix_a + "-"@).len() as int;
        assert(job_base(prefix_a, node_a).skip(n) =~= node_a);
        assert(job_base(prefix_b, node_b).skip(n) =~= node_b);
    } else if !job_name_fits(prefix_a, node_a) && !job_name_fits(prefix_b, node_b) {
        lemma_same_hash(
            kept(job_base(prefix_a, node_a)) + "-"@,
            hash_a,
            kept(job_base(prefix_b, node_b)) + "-"@,
            hash_b,
        );
    }
}

/// The identity that is hashed tells every two Jobs apart, as long as the character between
/// prefix and node does not itself occur in both prefixes or in both nodes' names, where they
/// differ.
pub proof fn law_job_identities_are_unique(
    prefix_a: Seq<char>,
    node_a: Seq<char>,
    prefix_b: Seq<char>,
    node_b: Seq<char>,
)
    requires
        job_identity(prefix_a, node_a) == job_identity(prefix_b, node_b),
        prefix_a == prefix_b || node_a == node_b || (!prefix_a.contains('\0')
            && !prefix_b.contains('\0')) || (!node_a.contains('\0') && !node_b.contains('\0')),
    ensures
        prefix_a == prefix_b,
        node_a == node_b,
{
    let a = job_identity(prefix_a, node_a);
    let b = job_identity(prefix_b, node_b);
    assert(a.len() == b.len());
    if prefix_a.len() < prefix_b.len() {
        let at = prefix_a.len() as int;
        assert(a[at] == '\0');
        assert(b[at] == prefix_b[at]);
        assert(prefix_b.contains('\0'));
        let to = prefix_b.len() as int;
        assert(b[to] == '\0');
        assert(a[to] == node_a[to - at - 1]);
        assert(node_a.contains('\0'));
        assert(prefix_a != prefix_b);
        assert(node_a.len() != node_b.len());
    } else if prefix_b.len() < prefix_a.len() {
        let at = prefix_b.len() as int;
        assert(b[at] == '\0');
        assert(a[at] == prefix_a[at]);
        assert(prefix_a.contains('\0'));
        let to = prefix_a.len() as int;
        assert(a[to] == '\0');
        assert(b[to] == node_b[to - at - 1]);
        assert(node_b.contains('\0'));
        assert(prefix_a != prefix_b);
        assert(node_a.len() != node_b.len());
    } else {
        let n = prefix_a.len() as int;
        assert(a.take(n) =~= prefix_a);
        assert(b.take(n) =~= prefix_b);
        assert(a.skip(n + 1) =~= node_a);
        assert(b.skip(n + 1) =~= node_b);
    }
}

/// Of two different nodes under one prefix that both need a hash, the Jobs have different names
/// unless SHA-256, cut to the bytes that stand in a name, gives the same for their identities.
pub proof fn law_only_a_hash_collision_merges_hashed_job_names(
    prefix: Seq<char>,
    node_a: Seq<char>,
    node_b: Seq<char>,
    hash_a: Seq<char>,
    hash_b: Seq<char>,
)
    requires
        is_short_hash(hash_a),
        is_short_hash(hash_b),
        !job_name_fits(prefix, node_a),
        !job_name_fits(prefix, node_b),
        node_a != node_b,
        hash_a != hash_b,
    ensures
        job_identity(prefix, node_a) != job_identity(prefix, node_b),
        job_text(prefix, node_a, hash_a) != job_text(prefix, node_b, hash_b),
{
    if job_text(prefix, node_a, hash_a) == job_text(prefix, node_b, hash_b) {
        law_equal_job_names(prefix, node_a, hash_a, prefix, node_b, hash_b);
    }
    if job_identity(prefix, node_a) == job_identity(prefix, node_b) {
        law_job_identities_are_unique(prefix, node_a, prefix, node_b);
    }
}

// ---------------------------------------------------------------------------------------------
// What names are made of

/// A letter or a digit, as ASCII has them.
pub open spec fn is_alphanumeric(c: char) -> bool {
    'a' <= c <= 'z' || 'A' <= c <= 'Z' || '0' <= c <= '9'
}

/// Sanitizing keeps what stands from the first letter or digit to the last one, character by
/// character: lower-case letters and digits as they are, capital letters as their lower-case
/// ones, and everything else as a dash. Without a letter or a digit nothing is kept.
pub proof fn law_sanitizing_goes_by_character(name: Seq<char>)
    ensures
        exists|from: int, to: int|
            {
                &&& 0 <= from <= to <= name.len()
                &&& #[trigger] name.subrange(from, to).len() == sanitized(name).len()
                &&& forall|i: int|
                    0 <= i < from || to <= i < name.len() ==> !is_alphanumeric(#[trigger] name[i])
                &&& from < to ==> is_alphanumeric(name[from]) && is_alphanumeric(name[to - 1])
                &&& forall|i: int|
                    0 <= i < to - from ==> {
                        let c = name[from + i];
                        let r = #[trigger] sanitized(name)[i];
                        &&& 'a' <= c <= 'z' || '0' <= c <= '9' ==> r == c
                        &&& 'A' <= c <= 'Z' ==> r as int == c as int - 'A' as int + 'a' as int
                        &&& !is_alphanumeric(c) ==> r == '-'
                    }
            },
{
    let mapped = name.map_values(|c: char| label_char(c));
    let ended = trim_end(mapped, only('-'));
    lemma_trim_end(mapped, only('-'));
    lemma_trim_start(ended, only('-'));
    let to = ended.len() as int;
    let from = to - sanitized(name).len();
    assert(name.subrange(from, to).len() == sanitized(name).len());
    assert forall|i: int| 0 <= i < from || to <= i < name.len() implies !is_alphanumeric(
        #[trigger] name[i],
    ) by {
        assert(mapped[i] == label_char(name[i]));
        if i < from {
            assert(only('-')(ended[i]));
        } else {
            assert(only('-')(mapped[i]));
        }
    }
    if from < to {
        assert(!only('-')(sanitized(name)[0]));
        assert(sanitized(name)[0] == label_char(name[from]));
        assert(!only('-')(ended.last()));
        assert(ended.last() == label_char(name[to - 1]));
    }
    assert forall|i: int| 0 <= i < to - from implies #[trigger] sanitized(name)[i] == label_char(
        name[from + i],
    ) by {
        assert(ended[from + i] == mapped[from + i]);
    }
}

/// What can be used as it is: lower-case letters, digits and dashes, at least one of them, and no
/// dash at the ends.
pub open spec fn is_clean(s: Seq<char>) -> bool {
    &&& s.len() > 0
    &&& forall|i: int|
        0 <= i < s.len() ==> 'a' <= #[trigger] s[i] <= 'z' || '0' <= s[i] <= '9' || s[i] == '-'
    &&& s[0] != '-'
    &&& s[s.len() - 1] != '-'
}

/// What is clean is what sanitizing leaves as it is, but for the empty text.
proof fn lemma_clean(s: Seq<char>)
    ensures
        is_clean(s) <==> s.len() > 0 && sanitized(s) == s,
{
    if is_clean(s) {
        assert forall|i: int| 0 <= i < s.len() implies is_label_char(#[trigger] s[i]) by {}
        lemma_sanitized_already(s);
    }
    if s.len() > 0 && sanitized(s) == s {
        lemma_sanitized(s);
        assert forall|i: int| 0 <= i < s.len() implies 'a' <= #[trigger] s[i] <= 'z' || '0' <= s[i]
            <= '9' || s[i] == '-' by {
            assert(is_label_char(sanitized(s)[i]));
        }
    }
}

/// `text` ends in a dash and the first 12 bytes of the SHA-256 digest of `identity`, encoded as
/// UTF-8, in hexadecimal.
pub open spec fn ends_in_hash_of(text: Seq<char>, identity: Seq<char>) -> bool {
    let n = text.len() - 24;
    &&& n >= 1
    &&& text[n - 1] == '-'
    &&& forall|i: int|
        0 <= i < 12 ==> {
            let byte = #[trigger] sha256(encode_utf8(identity))[i];
            &&& text[n + 2 * i] == "0123456789abcdef"@[byte as int / 16]
            &&& text[n + 2 * i + 1] == "0123456789abcdef"@[byte as int % 16]
        }
}

proof fn lemma_ends_in_hash(start: Seq<char>, identity: Seq<char>)
    ensures
        is_short_hash(short_hash_text(identity)),
        ends_in_hash_of(start + "-"@ + short_hash_text(identity), identity),
{
    reveal_strlit("-");
    let digest = sha256(encode_utf8(identity));
    let bytes = Seq::new(HASH_BYTES as nat, |i: int| digest[i]);
    let hash = short_hash_text(identity);
    let text = start + "-"@ + hash;
    lemma_digest_text(digest);
    let n = text.len() - 24;
    assert forall|i: int| 0 <= i < 12 implies {
        let byte = #[trigger] sha256(encode_utf8(identity))[i];
        &&& text[n + 2 * i] == "0123456789abcdef"@[byte as int / 16]
        &&& text[n + 2 * i + 1] == "0123456789abcdef"@[byte as int % 16]
    } by {
        law_hexadecimals_stand_byte_by_byte(bytes, i);
        assert(text[n + 2 * i] == hash[2 * i]);
        assert(text[n + 2 * i + 1] == hash[2 * i + 1]);
    }
}

/// Two texts get the same hash only if the SHA-256 digests of all their bytes agree in the first
/// 12 bytes. Different texts have different bytes.
pub proof fn law_equal_hashes(a: Seq<char>, b: Seq<char>)
    requires
        short_hash_text(a) == short_hash_text(b),
    ensures
        forall|i: int|
            0 <= i < 12 ==> #[trigger] sha256(encode_utf8(a))[i] == sha256(encode_utf8(b))[i],
        encode_utf8(a) == encode_utf8(b) ==> a == b,
{
    let bytes_a = Seq::new(HASH_BYTES as nat, |i: int| sha256(encode_utf8(a))[i]);
    let bytes_b = Seq::new(HASH_BYTES as nat, |i: int| sha256(encode_utf8(b))[i]);
    law_hexadecimals_tell_bytes_apart(bytes_a, bytes_b);
    assert forall|i: int| 0 <= i < 12 implies #[trigger] sha256(encode_utf8(a))[i] == sha256(
        encode_utf8(b),
    )[i] by {
        assert(bytes_a[i] == bytes_b[i]);
    }
    encode_utf8_decode_utf8(a);
    encode_utf8_decode_utf8(b);
}

/// A clean node that leaves the name within 63 bytes is named behind the prefix as it is.
pub open spec fn named_verbatim(prefix: Seq<char>, node: Seq<char>) -> bool {
    is_clean(node) && encode_utf8(prefix + "-"@ + node).len() <= 63
}

/// A Job's name is the prefix, a dash and the node where that is clean and has no more than 63
/// bytes. Every other Job's name ends in the hash of prefix, NUL and node. In front of the hash
/// stands as much of the prefix, a dash and the sanitized node as there is in 38 characters, but
/// for dashes at its end.
pub proof fn law_a_job_is_named_by_prefix_and_node(prefix: Seq<char>, node: Seq<char>)
    ensures
        named_verbatim(prefix, node) ==> job_name_of(prefix, node) == prefix + "-"@ + node,
        !named_verbatim(prefix, node) ==> ends_in_hash_of(
            job_name_of(prefix, node),
            prefix + seq!['\0'] + node,
        ),
        !named_verbatim(prefix, node) ==> {
            let name = job_name_of(prefix, node);
            let base = prefix + "-"@ + sanitized(node);
            let n = name.len() - 25;
            &&& n <= 38
            &&& n <= base.len()
            &&& name.take(n) == base.take(n)
            &&& n > 0 ==> base[n - 1] != '-'
            &&& forall|i: int| n <= i < base.len() && i < 38 ==> #[trigger] base[i] == '-'
        },
{
    reveal_strlit("-");
    lemma_clean(node);
    lemma_name_fits(prefix, node);
    if !named_verbatim(prefix, node) {
        let base = job_base(prefix, node);
        let identity = job_identity(prefix, node);
        lemma_ends_in_hash(kept(base), identity);
        lemma_kept(base);
        lemma_kept_all(base);
        let name = job_name_of(prefix, node);
        let n = name.len() - 25;
        assert(n == kept(base).len());
        assert(name.take(n) =~= kept(base));
        if n > 0 {
            assert(base[n - 1] == kept(base).last());
        }
    }
}

proof fn lemma_name_fits(prefix: Seq<char>, node: Seq<char>)
    ensures
        named_verbatim(prefix, node) <==> job_name_fits(prefix, node),
{
    lemma_clean(node);
}

/// Nothing but dashes is left out of the characters that are kept.
proof fn lemma_kept_all(s: Seq<char>)
    ensures
        forall|i: int| kept(s).len() <= i < s.len() && i < 38 ==> #[trigger] s[i] == '-',
{
    let start = first_chars(s, KEPT_CHARS as int);
    lemma_trim_end(start, only('-'));
    assert forall|i: int| kept(s).len() <= i < s.len() && i < 38 implies #[trigger] s[i] == '-' by {
        assert(start[i] == s[i]);
        assert(only('-')(start[i]));
    }
}

/// Two Jobs, of different nodes or under different prefixes, whose names both need a hash have
/// different names unless the SHA-256 digests of prefix, NUL and node agree in their first 12
/// bytes. Different nodes under one prefix that are both named as they are have different names,
/// and where one is named as it is and the other by its hash, the first spells that hash out.
pub proof fn law_job_names_meet_only_by_their_digests(
    prefix_a: Seq<char>,
    node_a: Seq<char>,
    prefix_b: Seq<char>,
    node_b: Seq<char>,
)
    requires
        job_name_of(prefix_a, node_a) == job_name_of(prefix_b, node_b),
    ensures
        !named_verbatim(prefix_a, node_a) && !named_verbatim(prefix_b, node_b) ==> forall|i: int|
            0 <= i < 12 ==> #[trigger] sha256(encode_utf8(prefix_a + seq!['\0'] + node_a))[i]
                == sha256(encode_utf8(prefix_b + seq!['\0'] + node_b))[i],
        named_verbatim(prefix_a, node_a) && named_verbatim(prefix_b, node_b) && prefix_a == prefix_b
            ==> node_a == node_b,
        named_verbatim(prefix_a, node_a) && !named_verbatim(prefix_b, node_b) ==> ends_in_hash_of(
            prefix_a + "-"@ + node_a,
            prefix_b + seq!['\0'] + node_b,
        ),
        prefix_a == prefix_b && node_a != node_b ==> encode_utf8(
            prefix_a + seq!['\0'] + node_a,
        ) != encode_utf8(prefix_b + seq!['\0'] + node_b),
{
    let identity_a = job_identity(prefix_a, node_a);
    let identity_b = job_identity(prefix_b, node_b);
    let hash_a = short_hash_text(identity_a);
    let hash_b = short_hash_text(identity_b);
    lemma_digest_text(sha256(encode_utf8(identity_a)));
    lemma_digest_text(sha256(encode_utf8(identity_b)));
    lemma_name_fits(prefix_a, node_a);
    lemma_name_fits(prefix_b, node_b);
    law_a_job_is_named_by_prefix_and_node(prefix_a, node_a);
    law_a_job_is_named_by_prefix_and_node(prefix_b, node_b);
    law_equal_job_names(prefix_a, node_a, hash_a, prefix_b, node_b, hash_b);
    if !named_verbatim(prefix_a, node_a) && !named_verbatim(prefix_b, node_b) {
        law_equal_hashes(identity_a, identity_b);
    }
    if prefix_a == prefix_b && node_a != node_b {
        encode_utf8_decode_utf8(identity_a);
        encode_utf8_decode_utf8(identity_b);
        if identity_a == identity_b {
            law_job_identities_are_unique(prefix_a, node_a, prefix_b, node_b);
        }
    }
}

/// A hash stands at the end as it is, and what stands in front of it does not depend on it.
pub proof fn law_a_hash_stands_at_the_end(
    prefix: Seq<char>,
    node: Seq<char>,
    value: Seq<char>,
    hash: Seq<char>,
)
    ensures
        hashed_job_text(prefix, node, hash) == hashed_job_text(prefix, node, seq![]) + hash,
        hashed_label_text(value, hash) == hashed_label_text(value, seq![]) + hash,
{
    assert(hashed_job_text(prefix, node, hash) =~= hashed_job_text(prefix, node, seq![]) + hash);
    assert(hashed_label_text(value, hash) =~= hashed_label_text(value, seq![]) + hash);
}

/// A label value is the value where that is clean and has no more than 63 characters. Every other
/// one ends in the hash of the value. In front of the hash stands as much of the sanitized value as
/// there is in 38 characters, but for dashes at its end, and where sanitizing leaves nothing, a
/// name of the dispatcher's own.
pub proof fn law_a_label_value_is_made_of_its_value(value: Seq<char>)
    ensures
        is_clean(value) && value.len() <= 63 ==> label_value_of(value) == value,
        !(is_clean(value) && value.len() <= 63) ==> ends_in_hash_of(label_value_of(value), value),
        !(is_clean(value) && value.len() <= 63) ==> {
            let text = label_value_of(value);
            let clean = sanitized(value);
            let n = text.len() - 25;
            &&& clean.len() == 0 ==> text.take(n) == "dispatcher"@
            &&& clean.len() > 0 ==> {
                &&& 0 < n <= 38
                &&& n <= clean.len()
                &&& text.take(n) == clean.take(n)
                &&& clean[n - 1] != '-'
                &&& forall|i: int| n <= i < clean.len() && i < 38 ==> #[trigger] clean[i] == '-'
            }
        },
{
    reveal_strlit("-");
    reveal_strlit("dispatcher");
    lemma_clean(value);
    lemma_value_fits(value);
    if !label_value_fits(value) {
        let clean = sanitized(value);
        lemma_sanitized(value);
        lemma_kept(clean);
        lemma_kept_all(clean);
        let start = if kept(clean).len() == 0 {
            "dispatcher"@
        } else {
            kept(clean)
        };
        lemma_ends_in_hash(start, value);
        let text = label_value_of(value);
        assert(text.take(text.len() - 25) =~= start);
        if clean.len() > 0 {
            let n = text.len() - 25;
            assert(clean[n - 1] == kept(clean).last());
        }
    }
}

proof fn lemma_value_fits(value: Seq<char>)
    ensures
        is_clean(value) && value.len() <= 63 <==> label_value_fits(value),
{
    lemma_clean(value);
    lemma_byte_len_bounds(value);
    if is_clean(value) {
        assert(is_ascii_chars(value)) by {
            assert forall|i: int| 0 <= i < value.len() implies '\0' <= #[trigger] value[i]
                <= '\u{7f}' by {}
        }
        is_ascii_chars_encode_utf8(value);
    }
}

/// Two values whose label values both need a hash have different ones unless the SHA-256 digests
/// of the values agree in their first 12 bytes. Different values that are used as they are have
/// different label values, and where one is used as it is and the other has its hash, the first
/// spells that hash out.
pub proof fn law_label_values_meet_only_by_their_digests(a: Seq<char>, b: Seq<char>)
    requires
        label_value_of(a) == label_value_of(b),
    ensures
        !(is_clean(a) && a.len() <= 63) && !(is_clean(b) && b.len() <= 63) ==> forall|i: int|
            0 <= i < 12 ==> #[trigger] sha256(encode_utf8(a))[i] == sha256(encode_utf8(b))[i],
        is_clean(a) && a.len() <= 63 && is_clean(b) && b.len() <= 63 ==> a == b,
        is_clean(a) && a.len() <= 63 && !(is_clean(b) && b.len() <= 63) ==> ends_in_hash_of(a, b),
{
    lemma_digest_text(sha256(encode_utf8(a)));
    lemma_digest_text(sha256(encode_utf8(b)));
    lemma_value_fits(a);
    lemma_value_fits(b);
    law_a_label_value_is_made_of_its_value(b);
    law_equal_label_values(a, short_hash_text(a), b, short_hash_text(b));
    if !label_value_fits(a) && !label_value_fits(b) {
        law_equal_hashes(a, b);
    }
}

} // verus!
