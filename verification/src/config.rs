//! The back-up configuration and how the configuration form fills it in.

use vstd::prelude::*;
use crate::text::{chars_of, split_spans, trim_span, split_on, trim, spans_text, span_text, count_char, is_white_space, lemma_split_pieces, lemma_trim_ends, lemma_trim_subrange};

verus! {

/// What to back up, where to, how, and (for a selective back-up) which
/// file extensions.
#[derive(Clone, Debug, PartialEq, Eq)]
pub struct Config {
    pub source_path: String,
    pub destination_path: String,
    pub backup_type: String,
    pub extensions_to_backup: Vec<String>,
}

/// The extensions written in the form's text field: the pieces between
/// commas, each without leading and trailing whitespace.
pub open spec fn extensions_of(text: Seq<char>) -> Seq<Seq<char>> {
    split_on(text, ',').map_values(|piece: Seq<char>| trim(piece))
}

/// There is one more extension than there are commas in the text; no
/// extension holds a comma or starts or ends with whitespace.
pub proof fn lemma_extensions_shape(text: Seq<char>)
    ensures
        extensions_of(text).len() == count_char(text, ',') + 1,
        forall|k: int, i: int|
            0 <= k < extensions_of(text).len() && 0 <= i < extensions_of(text)[k].len()
                ==> #[trigger] extensions_of(text)[k][i] != ',',
        forall|k: int|
            0 <= k < extensions_of(text).len() && #[trigger] extensions_of(text)[k].len() > 0
                ==> !is_white_space(extensions_of(text)[k][0]) && !is_white_space(
                extensions_of(text)[k].last(),
            ),
{
    let pieces = split_on(text, ',');
    lemma_split_pieces(text, ',');
    assert forall|k: int, i: int|
        0 <= k < extensions_of(text).len() && 0 <= i < extensions_of(text)[k].len()
            implies #[trigger] extensions_of(text)[k][i] != ',' by {
        lemma_trim_subrange(pieces[k]);
        let (a, b) = choose|a: int, b: int|
            0 <= a <= b <= pieces[k].len() && trim(pieces[k]) == pieces[k].subrange(a, b);
        assert(trim(pieces[k])[i] == pieces[k][a + i]);
        assert(pieces[k][a + i] != ',');
    }
    assert forall|k: int|
        0 <= k < extensions_of(text).len() && #[trigger] extensions_of(text)[k].len() > 0
            implies !is_white_space(extensions_of(text)[k][0]) && !is_white_space(
            extensions_of(text)[k].last(),
        ) by {
        lemma_trim_ends(pieces[k]);
    }
}

/// The extensions of a comma-separated list such as `"jpg, txt"`: each
/// piece between commas, trimmed. Empty pieces stay, so `""` gives one
/// empty extension.
pub fn parse_extensions(text: &str) -> (r: Vec<String>)
    ensures
        r@.len() == extensions_of(text@).len(),
        forall|k: int| 0 <= k < r@.len() ==> #[trigger] r@[k]@ == extensions_of(text@)[k],
{
    let v = chars_of(text);
    let spans = split_spans(&v, ',');
    let ghost pieces = split_on(text@, ',');
    let mut out: Vec<String> = Vec::new();
    let mut k: usize = 0;
    while k < spans.len()
        invariant
            v@ == text@,
            spans_text(v@, spans@) == pieces,
            pieces == split_on(text@, ','),
            forall|j: int| 0 <= j < spans@.len() ==> #[trigger] spans@[j].0 <= spans@[j].1 <= v@.len(),
            k <= spans.len(),
            out@.len() == k,
            forall|j: int| 0 <= j < k ==> #[trigger] out@[j]@ == trim(pieces[j]),
        decreases spans.len() - k,
    {
        let (a, b) = spans[k];
        assert(spans@[k as int].0 <= spans@[k as int].1 <= v@.len());
        let (ta, tb) = trim_span(&v, a, b);
        let piece = text.substring_char(ta, tb).to_owned();
        proof {
            assert(pieces[k as int] == span_text(v@, spans@[k as int]));
        }
        out.push(piece);
        k = k + 1;
    }
    out
}

/// The configuration that the form's fields describe.
pub fn config_from_form(
    source_path: String,
    destination_path: String,
    backup_type: String,
    extensions_text: &str,
) -> (r: Config)
    ensures
        r.source_path@ == source_path@,
        r.destination_path@ == destination_path@,
        r.backup_type@ == backup_type@,
        r.extensions_to_backup@.len() == extensions_of(extensions_text@).len(),
        forall|k: int|
            0 <= k < r.extensions_to_backup@.len() ==> #[trigger] r.extensions_to_backup@[k]@
                == extensions_of(extensions_text@)[k],
{
    Config {
        source_path,
        destination_path,
        backup_type,
        extensions_to_backup: parse_extensions(extensions_text),
    }
}

} // verus!
