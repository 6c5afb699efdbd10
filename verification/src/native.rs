//! Native-TLS probe: the label of the platform TLS stack.

use vstd::prelude::*;
use crate::text::{contains, contains_seq, lines_of, lines_spec, occurs_at, push_char, push_str};

verus! {

/// The operating system the tester was built for, as far as the TLS stack
/// depends on it.
#[derive(Debug, Clone, Copy, PartialEq, Eq, Structural)]
pub enum TargetOs {
    Windows,
    MacOs,
    Other,
}

/// The TLS backend label recorded for native-TLS probes: SChannel on
/// Windows, Secure Transport on macOS, OpenSSL elsewhere.
pub fn native_backend_name(os: TargetOs) -> (name: &'static str)
    ensures
        os == TargetOs::Windows ==> name@ == "native/schannel"@,
        os == TargetOs::MacOs ==> name@ == "native/secure-transport"@,
        os == TargetOs::Other ==> name@ == "native/openssl"@,
{
    match os {
        TargetOs::Windows => "native/schannel",
        TargetOs::MacOs => "native/secure-transport",
        TargetOs::Other => "native/openssl",
    }
}

/// The line that closes a PEM certificate.
pub open spec fn pem_end_marker() -> Seq<char> {
    "-----END CERTIFICATE-----"@
}

/// Splitting a bundle line by line: the finished blocks and the block being
/// gathered. Each line is added with a `\n`; a line holding the end marker
/// finishes the block.
pub open spec fn pem_split_state(lines: Seq<Seq<char>>) -> (Seq<Seq<char>>, Seq<char>)
    decreases lines.len(),
{
    if lines.len() == 0 {
        (Seq::empty(), Seq::empty())
    } else {
        let prev = pem_split_state(lines.drop_last());
        let line = lines.last();
        let current = prev.1 + line.push('\n');
        if contains_seq(line, pem_end_marker()) {
            (prev.0.push(current), Seq::empty())
        } else {
            (prev.0, current)
        }
    }
}

/// The certificate blocks of a PEM bundle, each from the line after the
/// previous block up to and including a line that holds the end marker;
/// trailing lines without one are dropped.
pub open spec fn pem_blocks_spec(bundle: Seq<char>) -> Seq<Seq<char>> {
    pem_split_state(lines_spec(bundle)).0
}

/// Splits a PEM bundle into its certificate blocks (see `pem_blocks_spec`).
pub fn split_pem_certificates(bundle: &str) -> (blocks: Vec<String>)
    ensures
        blocks@.len() == pem_blocks_spec(bundle@).len(),
        forall|i: int| 0 <= i < blocks@.len() ==> (#[trigger] blocks@[i])@ == pem_blocks_spec(bundle@)[i],
{
    let lines = lines_of(bundle);
    let ghost ls = lines_spec(bundle@);
    let mut blocks: Vec<String> = Vec::new();
    let mut current = String::new();
    let mut i: usize = 0;
    while i < lines.len()
        invariant
            ls == lines_spec(bundle@),
            lines@.len() == ls.len(),
            forall|j: int| 0 <= j < lines@.len() ==> (#[trigger] lines@[j])@ == ls[j],
            i <= lines@.len(),
            blocks@.len() == pem_split_state(ls.take(i as int)).0.len(),
            forall|j: int| 0 <= j < blocks@.len() ==> (#[trigger] blocks@[j])@ == pem_split_state(ls.take(i as int)).0[j],
            current@ == pem_split_state(ls.take(i as int)).1,
        decreases lines@.len() - i,
    {
        proof {
            assert(ls.take(i + 1).drop_last() =~= ls.take(i as int));
            assert(ls.take(i + 1).last() == lines@[i as int]@);
        }
        let line = lines[i].as_str();
        push_str(&mut current, line);
        push_char(&mut current, '\n');
        assert(current@ =~= pem_split_state(ls.take(i as int)).1 + line@.push('\n'));
        if contains(line, "-----END CERTIFICATE-----") {
            blocks.push(current);
            current = String::new();
        }
        i = i + 1;
    }
    assert(ls.take(i as int) =~= ls);
    blocks
}

proof fn lemma_contains_within(a: Seq<char>, b: Seq<char>, needle: Seq<char>)
    requires
        contains_seq(b, needle),
    ensures
        contains_seq(a + b, needle),
{
    let k = choose|k: int| occurs_at(needle, b, k);
    assert((a + b).subrange(a.len() + k, a.len() + k + needle.len()) =~= b.subrange(k, k + needle.len()));
    assert(occurs_at(needle, a + b, a.len() + k));
}

proof fn lemma_blocks_end_marked(lines: Seq<Seq<char>>)
    ensures
        forall|j: int| 0 <= j < pem_split_state(lines).0.len()
            ==> contains_seq(#[trigger] pem_split_state(lines).0[j], pem_end_marker()),
    decreases lines.len(),
{
    if lines.len() > 0 {
        lemma_blocks_end_marked(lines.drop_last());
        let prev = pem_split_state(lines.drop_last());
        let line = lines.last();
        if contains_seq(line, pem_end_marker()) {
            let k = choose|k: int| occurs_at(pem_end_marker(), line, k);
            assert(line.push('\n').subrange(k, k + pem_end_marker().len()) =~= line.subrange(k, k + pem_end_marker().len()));
            assert(occurs_at(pem_end_marker(), line.push('\n'), k));
            lemma_contains_within(prev.1, line.push('\n'), pem_end_marker());
        }
    }
}

/// Every block a bundle is split into holds the end marker: no block is a
/// half-read certificate.
pub proof fn law_pem_blocks_are_closed(bundle: Seq<char>)
    ensures
        forall|j: int| 0 <= j < pem_blocks_spec(bundle).len()
            ==> contains_seq(#[trigger] pem_blocks_spec(bundle)[j], pem_end_marker()),
{
    lemma_blocks_end_marked(lines_spec(bundle));
}

} // verus!
