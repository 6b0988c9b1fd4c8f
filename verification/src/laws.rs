use vstd::prelude::*;
use crate::color::{color_code, keyed_by_code, resolve_color, MaterialView};
use crate::document::{references_of, DocumentView};
use crate::elements::{alias_key, HeaderView, Matrix4View, MetaView, PartReferenceView};
use crate::error::ParseErrorView;
use crate::instances::{
    instances_of_reference, instances_of_references, material_of_color, InstanceView,
};
use crate::lexer::{
    is_space, lemma_skip_spaces, lemma_skip_spaces_is, lemma_skip_word, lemma_skip_word_is,
    lemma_trim_back, lemma_trim_back_is, rest_of, skip_spaces, token_end, token_of, token_scalar,
    token_start, trim_back,
};
use crate::line::{directive_of, line_0_of, scalars_of, text_or_empty, Line0View};
use crate::palette::palette_of;
use crate::parser::{assemble, line_step, Step};

verus! {

/// The text `s` without the separators at its two ends; the empty text
/// where `s` holds nothing else.
pub open spec fn trimmed(s: Seq<char>) -> Seq<char> {
    if skip_spaces(s, 0) >= s.len() {
        Seq::empty()
    } else {
        s.subrange(skip_spaces(s, 0), trim_back(s, s.len() as int))
    }
}

/// A token that runs to the end of the line is the line without the
/// separators at its two ends, and there is none where nothing else is on
/// the line.
pub proof fn law_glob_token_is_trimmed_line(s: Seq<char>)
    ensures
        text_or_empty(s) == trimmed(s),
        token_of(s, true) is Ok <==> exists|k: int| 0 <= k < s.len() && !is_space(s[k]),
        token_of(s, true) matches Ok(text) ==> text.len() > 0 && !is_space(text[0]) && !is_space(
            text.last(),
        ),
{
    lemma_skip_spaces(s, 0);
    lemma_trim_back(s, s.len() as int);
    let a = skip_spaces(s, 0);
    let b = trim_back(s, s.len() as int);
    if a < s.len() {
        assert(!is_space(s[a]));
        if b <= a {
            assert(is_space(s[a]));
        }
    } else {
        assert forall|k: int| 0 <= k < s.len() implies is_space(s[k]) by {}
    }
}

/// A token that ends at a separator holds none: it is the characters from
/// the first that is no separator up to the next separator.
pub proof fn law_token_holds_no_separator(s: Seq<char>)
    ensures
        token_of(s, false) matches Ok(token) ==> token.len() > 0 && forall|k: int|
            0 <= k < token.len() ==> !is_space(#[trigger] token[k]),
{
    lemma_skip_spaces(s, 0);
    lemma_skip_word(s, token_start(s));
    if token_start(s) < s.len() {
        let a = token_start(s);
        let b = token_end(s, false);
        assert(!is_space(s[a]));
        assert(b > a);
        let token = s.subrange(a, b);
        assert forall|k: int| 0 <= k < token.len() implies !is_space(#[trigger] token[k]) by {
            assert(token[k] == s[a + k]);
        }
    }
}

/// The next token is the first word of the line: where the characters
/// before `start` are separators, those from `start` up to `end` are none,
/// and the line ends at `end` or has a separator there, the token is what
/// stands between the two, and the line goes on behind that separator.
pub proof fn law_token_is_first_word(s: Seq<char>, start: int, end: int)
    requires
        0 <= start < end <= s.len(),
        forall|k: int| 0 <= k < start ==> is_space(#[trigger] s[k]),
        forall|k: int| start <= k < end ==> !is_space(#[trigger] s[k]),
        end < s.len() ==> is_space(s[end]),
    ensures
        token_of(s, false) == Ok::<Seq<char>, ParseErrorView>(s.subrange(start, end)),
        rest_of(s, false) == if end < s.len() {
            s.subrange(end + 1, s.len() as int)
        } else {
            Seq::empty()
        },
{
    lemma_skip_spaces_is(s, 0, start);
    lemma_skip_word_is(s, start, end);
}

/// What is left of `s` once `n` tokens are taken from it.
pub open spec fn after_tokens(s: Seq<char>, n: nat) -> Seq<char>
    decreases n,
{
    if n == 0 {
        s
    } else {
        rest_of(after_tokens(s, (n - 1) as nat), false)
    }
}

/// Reading `n` numbers takes the first `n` tokens of the line, one for
/// each number, or stops at the first of them that is no number or is
/// missing, with the error of that token and the line read up to it.
pub proof fn law_numbers_are_the_first_tokens(s: Seq<char>, n: nat)
    ensures
        match scalars_of(s, n).value {
            Ok(numbers) => {
                &&& numbers.len() == n
                &&& scalars_of(s, n).rest == after_tokens(s, n)
                &&& forall|i: nat|
                    i < n ==> token_scalar(#[trigger] after_tokens(s, i)) == Ok::<
                        Seq<char>,
                        ParseErrorView,
                    >(numbers[i as int])
            },
            Err(e) => exists|k: nat|
                {
                    &&& k < n
                    &&& token_scalar(#[trigger] after_tokens(s, k)) == Err::<
                        Seq<char>,
                        ParseErrorView,
                    >(e)
                    &&& scalars_of(s, n).rest == after_tokens(s, k + 1)
                    &&& forall|i: nat| i < k ==> token_scalar(#[trigger] after_tokens(s, i)) is Ok
                },
        },
    decreases n,
{
    if n > 0 {
        let m = (n - 1) as nat;
        law_numbers_are_the_first_tokens(s, m);
        let before = scalars_of(s, m);
        match before.value {
            Ok(numbers) => {
                match token_scalar(before.rest) {
                    Ok(number) => {
                        let all = numbers.push(number);
                        assert forall|i: nat| i < n implies token_scalar(
                            #[trigger] after_tokens(s, i),
                        ) == Ok::<Seq<char>, ParseErrorView>(all[i as int]) by {
                            if i < m {
                                assert(all[i as int] == numbers[i as int]);
                            }
                        }
                    },
                    Err(e) => {
                        assert(token_scalar(after_tokens(s, m)) == Err::<Seq<char>, ParseErrorView>(e));
                        assert(scalars_of(s, n).rest == after_tokens(s, m + 1));
                    },
                }
            },
            Err(e) => {
                let k = choose|k: nat|
                    {
                        &&& k < m
                        &&& token_scalar(#[trigger] after_tokens(s, k)) == Err::<
                            Seq<char>,
                            ParseErrorView,
                        >(e)
                        &&& scalars_of(s, m).rest == after_tokens(s, k + 1)
                        &&& forall|i: nat|
                            i < k ==> token_scalar(#[trigger] after_tokens(s, i)) is Ok
                    };
                assert(k < n);
            },
        }
    }
}

/// How a line of type 0 splits: `text` is the line without the separators
/// at its ends, `word_end` is where the first word of `text` ends. The
/// first word and what follows it are then what the line is read by.
proof fn lemma_line_0_split(s: Seq<char>, word_end: int)
    requires
        skip_spaces(s, 0) < s.len(),
        0 < word_end <= trimmed(s).len(),
        forall|k: int| 0 <= k < word_end ==> !is_space(#[trigger] trimmed(s)[k]),
        word_end < trimmed(s).len() ==> is_space(trimmed(s)[word_end]),
    ensures
        token_of(s, true) == Ok::<Seq<char>, ParseErrorView>(trimmed(s)),
        token_of(trimmed(s), false) == Ok::<Seq<char>, ParseErrorView>(
            trimmed(s).subrange(0, word_end),
        ),
        text_or_empty(rest_of(trimmed(s), false)) == trimmed(
            trimmed(s).subrange(word_end, trimmed(s).len() as int),
        ),
        line_0_of(s) == directive_of(
            trimmed(s),
            trimmed(s).subrange(0, word_end),
            rest_of(trimmed(s), false),
        ),
{
    let text = trimmed(s);
    let n = text.len() as int;
    law_glob_token_is_trimmed_line(s);
    assert(token_of(s, true) == Ok::<Seq<char>, ParseErrorView>(text));
    lemma_skip_spaces_is(text, 0, 0);
    lemma_skip_word_is(text, 0, word_end);
    assert(token_start(text) == 0);
    assert(token_end(text, false) == word_end);
    let rest = rest_of(text, false);
    let tail = text.subrange(word_end, n);
    law_glob_token_is_trimmed_line(rest);
    law_glob_token_is_trimmed_line(tail);
    if word_end < n {
        assert(rest == text.subrange(word_end + 1, n));
        assert(!is_space(text.last()));
        // the tail is one separator and then the rest
        lemma_skip_spaces(rest, 0);
        lemma_trim_back(rest, rest.len() as int);
        let a = skip_spaces(rest, 0);
        assert(a < rest.len()) by {
            if a >= rest.len() {
                assert(is_space(rest[rest.len() - 1]));
                assert(rest[rest.len() - 1] == text[n - 1]);
            }
        }
        assert(trim_back(rest, rest.len() as int) == rest.len()) by {
            assert(rest[rest.len() - 1] == text[n - 1]);
        }
        assert(tail[0] == text[word_end]);
        assert forall|k: int| 0 <= k < a + 1 implies is_space(#[trigger] tail[k]) by {
            if k > 0 {
                assert(tail[k] == rest[k - 1]);
            }
        }
        assert(tail[a + 1] == rest[a]);
        lemma_skip_spaces_is(tail, 0, a + 1);
        assert(tail[tail.len() - 1] == text[n - 1]);
        lemma_trim_back_is(tail, tail.len() as int, tail.len() as int);
        assert(trimmed(rest) =~= trimmed(tail));
    } else {
        assert(rest =~= Seq::<char>::empty());
        assert(tail =~= Seq::<char>::empty());
    }
}

/// A line of type 0 whose text begins with `!` is a header. Its key is what
/// stands between the `!` and the first separator, `key_end` being where
/// that separator stands or the line ends. Its value is what follows the
/// key, without the separators at its two ends; it is empty where nothing
/// follows.
pub proof fn law_header_line(s: Seq<char>, key_end: int)
    requires
        0 < key_end <= s.len(),
        s[0] == '!',
        forall|k: int| 0 <= k < key_end ==> !is_space(#[trigger] s[k]),
        key_end < s.len() ==> is_space(s[key_end]),
    ensures
        line_0_of(s) == Ok::<Line0View, ParseErrorView>(
            Line0View::Header(
                HeaderView {
                    key: s.subrange(1, key_end),
                    value: trimmed(s.subrange(key_end, s.len() as int)),
                },
            ),
        ),
{
    let n = s.len() as int;
    lemma_skip_spaces_is(s, 0, 0);
    lemma_trim_back(s, n);
    let end = trim_back(s, n);
    assert(end >= key_end) by {
        if end < key_end {
            assert(is_space(s[key_end - 1]));
        }
    }
    let text = trimmed(s);
    assert(text == s.subrange(0, end));
    assert forall|k: int| 0 <= k < key_end implies !is_space(#[trigger] text[k]) by {
        assert(text[k] == s[k]);
    }
    if key_end < text.len() {
        assert(text[key_end] == s[key_end]);
    }
    lemma_line_0_split(s, key_end);
    let cmd = text.subrange(0, key_end);
    assert(cmd[0] == s[0]);
    assert(cmd.skip(1) =~= s.subrange(1, key_end));
    // what follows the key in the text and in the line differ by separators
    // at the end alone
    let tail = text.subrange(key_end, text.len() as int);
    let whole = s.subrange(key_end, n);
    lemma_skip_spaces(tail, 0);
    lemma_skip_spaces(whole, 0);
    lemma_trim_back(tail, tail.len() as int);
    let a = skip_spaces(tail, 0);
    let b = trim_back(tail, tail.len() as int);
    assert forall|k: int| 0 <= k < tail.len() implies tail[k] == whole[k] by {
        assert(tail[k] == s[key_end + k]);
    }
    assert forall|k: int| tail.len() <= k < whole.len() implies is_space(#[trigger] whole[k]) by {
        assert(whole[k] == s[key_end + k]);
    }
    if a < tail.len() {
        assert forall|k: int| 0 <= k < a implies is_space(#[trigger] whole[k]) by {
            assert(whole[k] == tail[k]);
        }
        assert(whole[a] == tail[a]);
        lemma_skip_spaces_is(whole, 0, a);
        assert(b > a) by {
            if b <= a {
                assert(is_space(tail[a]));
            }
        }
        assert forall|k: int| b <= k < whole.len() implies is_space(#[trigger] whole[k]) by {
            if k < tail.len() {
                assert(whole[k] == tail[k]);
            }
        }
        assert(whole[b - 1] == tail[b - 1]);
        lemma_trim_back_is(whole, whole.len() as int, b);
        assert(trimmed(tail) =~= trimmed(whole));
    } else {
        assert forall|k: int| 0 <= k < whole.len() implies is_space(#[trigger] whole[k]) by {
            if k < tail.len() {
                assert(whole[k] == tail[k]);
            }
        }
        lemma_skip_spaces_is(whole, 0, whole.len() as int);
        assert(trimmed(tail) =~= trimmed(whole));
    }
}

/// Whether `word` is one of the words that a line of type 0 is read by.
pub open spec fn is_directive(word: Seq<char>) -> bool {
    ||| word.len() > 0 && word[0] == '!'
    ||| word == "BFC"@
    ||| word == "Name:"@
    ||| word == "Author:"@
    ||| word == "FILE"@
    ||| word == "STEP"@
    ||| word == "WRITE"@
    ||| word == "PRINT"@
    ||| word == "CLEAR"@
    ||| word == "PAUSE"@
    ||| word == "SAVE"@
}

/// A line of type 0 whose first word is none that it is read by is a
/// comment, and the comment is the whole text of the line as it was
/// written, but for the separators at its two ends. `word_end` is where
/// the first word of that text ends.
pub proof fn law_comment_line(s: Seq<char>, word_end: int)
    requires
        skip_spaces(s, 0) < s.len(),
        0 < word_end <= trimmed(s).len(),
        forall|k: int| 0 <= k < word_end ==> !is_space(#[trigger] trimmed(s)[k]),
        word_end < trimmed(s).len() ==> is_space(trimmed(s)[word_end]),
        !is_directive(trimmed(s).subrange(0, word_end)),
    ensures
        line_0_of(s) == Ok::<Line0View, ParseErrorView>(
            Line0View::Meta(MetaView::Comment(trimmed(s))),
        ),
{
    lemma_line_0_split(s, word_end);
}

/// A line of type 0 on which nothing follows the type is a comment without
/// text.
pub proof fn law_empty_line_0(s: Seq<char>)
    requires
        forall|k: int| 0 <= k < s.len() ==> is_space(#[trigger] s[k]),
    ensures
        line_0_of(s) == Ok::<Line0View, ParseErrorView>(
            Line0View::Meta(MetaView::Comment(Seq::empty())),
        ),
{
    lemma_skip_spaces_is(s, 0, s.len() as int);
}

/// The colour that a code resolves to resolves to itself: in a palette
/// that holds each material under its own code, as every registry does,
/// the code of the colour found gives that colour again.
pub proof fn law_resolve_idempotent(code: u32, palette: Map<u32, MaterialView>)
    requires
        keyed_by_code(palette),
    ensures
        color_code(resolve_color(code, palette)) == code,
        resolve_color(color_code(resolve_color(code, palette)), palette) == resolve_color(
            code,
            palette,
        ),
{
}

/// Whether the document `later` can come of `earlier` by reading on:
/// the headers and the commands of `earlier` stand first in `later`, in
/// their order, and a description that `earlier` has is the one of `later`.
pub open spec fn grows_to(earlier: DocumentView, later: DocumentView) -> bool {
    &&& earlier.headers.is_prefix_of(later.headers)
    &&& earlier.commands.is_prefix_of(later.commands)
    &&& earlier.description.len() > 0 ==> later.description == earlier.description
}

/// A line changes a document only by adding to it: what was read before
/// stays, in its order, and the description is set once.
pub proof fn law_line_adds(
    palette: Map<u32, MaterialView>,
    doc: DocumentView,
    line: Seq<char>,
    multipart: bool,
)
    ensures
        line_step(palette, doc, line, multipart) matches Step::Continue(next) ==> grows_to(doc, next),
{
    match line_step(palette, doc, line, multipart) {
        Step::Continue(next) => {
            assert(doc.commands.is_prefix_of(doc.commands.push(next.commands.last())));
            assert(doc.headers.is_prefix_of(doc.headers.push(next.headers.last())));
        },
        _ => {},
    }
}

/// What reading gives, from any line on and with any document read so
/// far. A document that comes of it has grown from the one read so far.
/// The name of a following document is given only where sub-models are
/// allowed, and only by a document that has a description. An error names
/// a line that was read, counted from one.
pub proof fn law_assemble(
    palette: Map<u32, MaterialView>,
    lines: Seq<Seq<char>>,
    at: int,
    doc: DocumentView,
    multipart: bool,
)
    requires
        0 <= at <= lines.len(),
    ensures
        match assemble(palette, lines, at, doc, multipart).value {
            Ok((read, following)) => {
                &&& grows_to(doc, read)
                &&& following is Some ==> multipart && read.description.len() > 0
                &&& following is None ==> assemble(palette, lines, at, doc, multipart).next
                    == lines.len()
            },
            Err(e) => at < e.line <= lines.len() && e.line == assemble(
                palette,
                lines,
                at,
                doc,
                multipart,
            ).next,
        },
    decreases lines.len() - at,
{
    if at < lines.len() {
        match line_step(palette, doc, lines[at], multipart) {
            Step::Continue(next) => {
                law_line_adds(palette, doc, lines[at], multipart);
                law_assemble(palette, lines, at + 1, next, multipart);
            },
            _ => {},
        }
    }
}

/// A palette that is read from headers holds each material under its own
/// code, and holds no more materials than there are headers.
pub proof fn law_palette_is_keyed_by_code(headers: Seq<HeaderView>, n: nat)
    ensures
        palette_of(headers, n) matches Ok(palette) ==> keyed_by_code(palette) && palette.dom().finite()
            && palette.len() <= n,
    decreases n,
{
    if n > 0 {
        law_palette_is_keyed_by_code(headers, (n - 1) as nat);
    }
}

/// Whether `instance` is one that a walk can find below `chain` in a file
/// with the sub-models `parts`: it is of a model that is none of the
/// sub-models, and what places it begins with `chain`.
pub open spec fn found_below(
    parts: Map<Seq<char>, DocumentView>,
    chain: Seq<Matrix4View>,
    instance: InstanceView,
) -> bool {
    !parts.contains_key(alias_key(instance.name)) && chain.is_prefix_of(instance.chain)
}

/// What a reference stands for is never a sub-model of the file, and is
/// placed by what places the reference, then by the reference itself, then
/// by what lies below it.
pub proof fn law_instances_of_reference(
    parts: Map<Seq<char>, DocumentView>,
    reference: PartReferenceView,
    chain: Seq<Matrix4View>,
    inherited: MaterialView,
    depth: nat,
)
    ensures
        instances_of_reference(parts, reference, chain, inherited, depth) matches Some(found)
            ==> forall|i: int|
            0 <= i < found.len() ==> found_below(parts, chain.push(reference.matrix), found[i]),
    decreases depth, 0nat,
{
    let placed = chain.push(reference.matrix);
    if parts.contains_key(alias_key(reference.name)) && depth > 0 {
        law_instances_of_references(
            parts,
            references_of(parts[alias_key(reference.name)].commands),
            placed,
            material_of_color(reference.color, inherited),
            (depth - 1) as nat,
        );
    }
}

/// What references stand for is never a sub-model of the file, and is
/// placed by what places the references and by at least one matrix more.
pub proof fn law_instances_of_references(
    parts: Map<Seq<char>, DocumentView>,
    references: Seq<PartReferenceView>,
    chain: Seq<Matrix4View>,
    inherited: MaterialView,
    depth: nat,
)
    ensures
        instances_of_references(parts, references, chain, inherited, depth) matches Some(found)
            ==> forall|i: int|
            0 <= i < found.len() ==> found_below(parts, chain, found[i]) && chain.len()
                < found[i].chain.len(),
    decreases depth, 1 + references.len(),
{
    if references.len() > 0 {
        law_instances_of_references(parts, references.drop_last(), chain, inherited, depth);
        law_instances_of_reference(parts, references.last(), chain, inherited, depth);
        match (
            instances_of_references(parts, references.drop_last(), chain, inherited, depth),
            instances_of_reference(parts, references.last(), chain, inherited, depth),
        ) {
            (Some(before), Some(last)) => {
                let placed = chain.push(references.last().matrix);
                assert(chain.is_prefix_of(placed));
                assert forall|i: int| 0 <= i < (before + last).len() implies found_below(
                    parts,
                    chain,
                    (before + last)[i],
                ) && chain.len() < (before + last)[i].chain.len() by {
                    if i >= before.len() {
                        let instance = last[i - before.len()];
                        assert((before + last)[i] == instance);
                        assert(placed.is_prefix_of(instance.chain));
                        assert(chain.is_prefix_of(instance.chain));
                    }
                }
            },
            _ => {},
        }
    }
}

} // verus!
