//! Alignment of a hyphenation mask with the word it annotates, one
//! user-perceived character at a time.
use vstd::prelude::*;
use vstd::string::*;
use unicode_segmentation::UnicodeSegmentation;
use crate::text::{joined, joined_prefix, text_eq, texts_of};

verus! {

/// The extended grapheme clusters of a text, in order, as
/// `unicode_segmentation` finds them.
pub uninterp spec fn grapheme_clusters(text: Seq<char>) -> Seq<Seq<char>>;

/// Splits a text into its extended grapheme clusters.
///
/// Calls `UnicodeSegmentation::graphemes(text, true)` and copies each
/// cluster. The iterator hands out consecutive slices of the text from its
/// start to its end, so the contract claims, beside the name of the result,
/// that the clusters joined give the text back.
#[verifier::external_body]
pub(crate) fn graphemes(text: &str) -> (r: Vec<String>)
    ensures
        texts_of(r@) == grapheme_clusters(text@),
        joined(texts_of(r@)) == text@,
{
    let mut clusters: Vec<String> = Vec::new();
    for cluster in text.graphemes(true) {
        clusters.push(cluster.to_owned());
    }
    clusters
}

/// Whether a mask cluster is exactly the symbol `symbol`.
pub open spec fn is_mark(cluster: Seq<char>, symbol: char) -> bool {
    cluster.len() == 1 && cluster[0] == symbol
}

/// What one grapheme becomes under its mask symbol: after `-` the insertion
/// string goes in front of it, after `=` the insertion string replaces it,
/// and after anything else it stays as it is.
pub open spec fn hyphenated_piece(grapheme: Seq<char>, mark: Seq<char>, hyphen: Seq<char>) -> Seq<
    char,
> {
    if is_mark(mark, '-') {
        hyphen + grapheme
    } else if is_mark(mark, '=') {
        hyphen
    } else {
        grapheme
    }
}

/// The pieces of the first `n` graphemes, joined.
pub open spec fn masked_prefix(
    word: Seq<Seq<char>>,
    mask: Seq<Seq<char>>,
    hyphen: Seq<char>,
    n: nat,
) -> Seq<char>
    decreases n,
{
    if n == 0 {
        Seq::empty()
    } else {
        masked_prefix(word, mask, hyphen, (n - 1) as nat) + hyphenated_piece(
            word[n - 1],
            mask[n - 1],
            hyphen,
        )
    }
}

/// The number of grapheme and mask clusters that pair up.
pub open spec fn paired_len(word: Seq<Seq<char>>, mask: Seq<Seq<char>>) -> nat {
    if word.len() <= mask.len() {
        word.len()
    } else {
        mask.len()
    }
}

/// The word with the insertion string put in where the mask says so.
pub open spec fn apply_mask(word: Seq<Seq<char>>, mask: Seq<Seq<char>>, hyphen: Seq<char>) -> Seq<
    char,
> {
    masked_prefix(word, mask, hyphen, paired_len(word, mask))
}

/// Whether a mask cluster is the one-character text `symbol`.
fn mark_is(cluster: &str, symbol: &str) -> (r: bool)
    requires
        symbol@.len() == 1,
    ensures
        r == is_mark(cluster@, symbol@[0]),
{
    let r = text_eq(cluster, symbol);
    proof {
        if is_mark(cluster@, symbol@[0]) {
            assert(cluster@ =~= symbol@);
        }
    }
    r
}

/// Pairs the clusters of a word with those of its mask and joins the pieces.
pub fn insert_at_marks(word: &Vec<String>, mask: &Vec<String>, hyphen: &str) -> (r: String)
    ensures
        r@ == apply_mask(texts_of(word@), texts_of(mask@), hyphen@),
{
    let n = if word.len() <= mask.len() {
        word.len()
    } else {
        mask.len()
    };
    let mut out = String::new();
    let mut i: usize = 0;
    while i < n
        invariant
            0 <= i <= n,
            n == paired_len(texts_of(word@), texts_of(mask@)),
            out@ == masked_prefix(texts_of(word@), texts_of(mask@), hyphen@, i as nat),
        decreases n - i,
    {
        let grapheme = word[i].as_str();
        let mark = mask[i].as_str();
        proof {
            reveal_strlit("-");
            reveal_strlit("=");
        }
        if mark_is(mark, "-") {
            out.append(hyphen);
            out.append(grapheme);
            assert(out@ =~= masked_prefix(texts_of(word@), texts_of(mask@), hyphen@, i as nat) + (
            hyphen@ + grapheme@));
        } else if mark_is(mark, "=") {
            out.append(hyphen);
        } else {
            out.append(grapheme);
        }
        i += 1;
    }
    out
}

/// No `=` stands among the first `n` marks.
pub open spec fn keeps_every_grapheme(mask: Seq<Seq<char>>, n: nat) -> bool {
    forall|i: int| 0 <= i < n ==> !is_mark(#[trigger] mask[i], '=')
}

/// With the empty insertion string a `-` mark changes nothing: as long as no
/// grapheme is dropped by an `=` mark, the result is the graphemes joined.
pub proof fn lemma_empty_hyphen_keeps_word(word: Seq<Seq<char>>, mask: Seq<Seq<char>>, n: nat)
    requires
        keeps_every_grapheme(mask, n),
    ensures
        masked_prefix(word, mask, Seq::empty(), n) == joined_prefix(word, n),
    decreases n,
{
    if n > 0 {
        lemma_empty_hyphen_keeps_word(word, mask, (n - 1) as nat);
        assert(!is_mark(mask[n - 1], '='));
        assert(Seq::<char>::empty() + word[n - 1] =~= word[n - 1]);
    }
}

/// The length of the piece that the grapheme at `i` became.
pub open spec fn piece_len(word: Seq<Seq<char>>, mask: Seq<Seq<char>>, hyphen_len: nat, i: int) -> nat {
    if is_mark(mask[i], '-') {
        hyphen_len + word[i].len()
    } else {
        word[i].len()
    }
}

/// Removes the insertion string from a hyphenated text at the places that
/// the mask implies: in front of each of the first `n` graphemes marked `-`.
pub open spec fn strip_hyphens(
    text: Seq<char>,
    word: Seq<Seq<char>>,
    mask: Seq<Seq<char>>,
    hyphen_len: nat,
    n: nat,
) -> Seq<char>
    decreases n,
{
    if n == 0 {
        Seq::empty()
    } else {
        let size = text.len() - piece_len(word, mask, hyphen_len, n - 1);
        strip_hyphens(text.subrange(0, size), word, mask, hyphen_len, (n - 1) as nat)
            + text.subrange(text.len() - word[n - 1].len(), text.len() as int)
    }
}

/// Round trip: putting the insertion string in where the mask says and then
/// taking it out from those places gives the graphemes back, as long as no
/// grapheme was replaced through an `=` mark.
pub proof fn lemma_strip_undoes_insert(
    word: Seq<Seq<char>>,
    mask: Seq<Seq<char>>,
    hyphen: Seq<char>,
    n: nat,
)
    requires
        keeps_every_grapheme(mask, n),
    ensures
        strip_hyphens(masked_prefix(word, mask, hyphen, n), word, mask, hyphen.len(), n)
            == joined_prefix(word, n),
    decreases n,
{
    if n > 0 {
        let before = masked_prefix(word, mask, hyphen, (n - 1) as nat);
        let piece = hyphenated_piece(word[n - 1], mask[n - 1], hyphen);
        let text = masked_prefix(word, mask, hyphen, n);
        lemma_strip_undoes_insert(word, mask, hyphen, (n - 1) as nat);
        assert(!is_mark(mask[n - 1], '='));
        assert(text == before + piece);
        assert(piece.len() == piece_len(word, mask, hyphen.len(), n - 1));
        assert(text.subrange(0, text.len() - piece.len()) =~= before);
        assert(text.subrange(text.len() - word[n - 1].len(), text.len() as int) =~= word[n - 1]);
    }
}

/// Whether the mask has a symbol for every grapheme cluster of the word and
/// replaces none of them.
pub open spec fn mask_keeps_word(word: Seq<char>, mask: Seq<char>) -> bool {
    &&& grapheme_clusters(mask).len() >= grapheme_clusters(word).len()
    &&& keeps_every_grapheme(grapheme_clusters(mask), grapheme_clusters(word).len())
}

/// Builds the hyphenated form of `word` from its hyphenation mask: the two
/// are split into grapheme clusters and aligned pairwise.
///
/// Where the mask keeps the word, the empty insertion string gives the word
/// itself, and with any insertion string the word comes back when the
/// insertion string is taken out where the mask put it.
pub fn hyphenate_with_mask(word: &str, mask: &str, hyphen: &str) -> (r: String)
    ensures
        r@ == apply_mask(grapheme_clusters(word@), grapheme_clusters(mask@), hyphen@),
        mask_keeps_word(word@, mask@) && hyphen@.len() == 0 ==> r@ == word@,
        mask_keeps_word(word@, mask@) ==> strip_hyphens(
            r@,
            grapheme_clusters(word@),
            grapheme_clusters(mask@),
            hyphen@.len(),
            grapheme_clusters(word@).len(),
        ) == word@,
{
    let word_clusters = graphemes(word);
    let mask_clusters = graphemes(mask);
    proof {
        let clusters = texts_of(word_clusters@);
        let marks = texts_of(mask_clusters@);
        if mask_keeps_word(word@, mask@) {
            lemma_strip_undoes_insert(clusters, marks, hyphen@, clusters.len());
            if hyphen@.len() == 0 {
                assert(hyphen@ =~= Seq::<char>::empty());
                lemma_empty_hyphen_keeps_word(clusters, marks, clusters.len());
            }
        }
    }
    insert_at_marks(&word_clusters, &mask_clusters, hyphen)
}

} // verus!
