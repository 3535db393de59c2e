//! The sentences of the directive grammar as token lists, and the proof that
//! the directive parser reads each of them as it is meant.

use crate::directive::{
    entries_from, entry_at, first_close, grouped, is_literal_list, is_word_list, list_items,
    models_of, nested_models_in, query_params_in, DirectiveError, DraftView, EntryView,
    NestedModelView,
};
use crate::schema::is_identifier;
use crate::token::TokenView;
use vstd::prelude::*;

verus! {

/// `items` with a comma between neighbours.
pub open spec fn separated(items: Seq<TokenView>) -> Seq<TokenView> {
    Seq::new(
        if items.len() == 0 {
            0nat
        } else {
            (2 * items.len() - 1) as nat
        },
        |i: int|
            if i % 2 == 0 {
                items[i / 2]
            } else {
                TokenView::Comma
            },
    )
}

/// The tokens of `"<literal>", "<literal>", ...`.
pub open spec fn literal_list_tokens(literals: Seq<Seq<char>>) -> Seq<TokenView> {
    separated(literals.map_values(|l: Seq<char>| TokenView::Literal(l)))
}

/// The tokens of `<identifier>, <identifier>, ...`.
pub open spec fn word_list_tokens(words: Seq<Seq<char>>) -> Seq<TokenView> {
    separated(words.map_values(|w: Seq<char>| TokenView::Word(w)))
}

/// The tokens of one model with its three entries in the order `name`,
/// `fields`, `extra_derives`.
pub open spec fn model_tokens(model: NestedModelView) -> Seq<TokenView> {
    seq![
        TokenView::Word("name"@),
        TokenView::Equals,
        TokenView::Literal(model.name),
        TokenView::Comma,
        TokenView::Word("fields"@),
        TokenView::Equals,
        TokenView::Open,
    ] + word_list_tokens(model.fields) + seq![
        TokenView::Close,
        TokenView::Comma,
        TokenView::Word("extra_derives"@),
        TokenView::Equals,
        TokenView::Open,
    ] + word_list_tokens(model.extra_capabilities) + seq![TokenView::Close]
}

/// The tokens of one model after another, with a comma between neighbours.
pub open spec fn models_tokens(models: Seq<NestedModelView>) -> Seq<TokenView>
    decreases models.len(),
{
    if models.len() == 0 {
        Seq::empty()
    } else if models.len() == 1 {
        model_tokens(models[0])
    } else {
        model_tokens(models[0]) + seq![TokenView::Comma] + models_tokens(models.drop_first())
    }
}

/// Every field and every further capability of the model is an identifier.
pub open spec fn names_are_identifiers(model: NestedModelView) -> bool {
    &&& forall|i: int| 0 <= i < model.fields.len() ==> is_identifier(#[trigger] model.fields[i])
    &&& forall|i: int|
        0 <= i < model.extra_capabilities.len() ==> is_identifier(
            #[trigger] model.extra_capabilities[i],
        )
}

/// One or more string literals separated by commas are read as those
/// literals, in order.
pub proof fn lemma_literals_are_read(literals: Seq<Seq<char>>)
    requires
        literals.len() >= 1,
    ensures
        query_params_in(literal_list_tokens(literals)) == Ok::<Seq<Seq<char>>, DirectiveError>(
            literals,
        ),
{
    let tokens = literal_list_tokens(literals);
    assert(is_literal_list(tokens));
    assert(list_items(tokens) =~= literals);
}

/// A list of identifiers separated by commas is read as those identifiers,
/// in order.
pub proof fn lemma_words_are_read(words: Seq<Seq<char>>)
    requires
        forall|i: int| 0 <= i < words.len() ==> is_identifier(#[trigger] words[i]),
    ensures
        is_word_list(word_list_tokens(words)),
        list_items(word_list_tokens(words)) == words,
        forall|i: int|
            0 <= i < word_list_tokens(words).len() ==> #[trigger] word_list_tokens(words)[i]
                != TokenView::Close,
{
    let tokens = word_list_tokens(words);
    if words.len() > 0 {
        assert forall|i: int| 0 <= i < tokens.len() implies if i % 2 == 0 {
            (#[trigger] tokens[i]) matches TokenView::Word(w) && is_identifier(w)
        } else {
            tokens[i] == TokenView::Comma
        } by {
            if i % 2 == 0 {
                assert(is_identifier(words[i / 2]));
            }
        }
    }
    assert(list_items(tokens) =~= words);
}

/// The entries of one model, in the order `name`, `fields`,
/// `extra_derives`.
pub open spec fn model_entries(model: NestedModelView) -> Seq<EntryView> {
    seq![
        EntryView::Name(model.name),
        EntryView::Fields(model.fields),
        EntryView::Extras(model.extra_capabilities),
    ]
}

/// The entries of one model after another.
pub open spec fn entries_of(models: Seq<NestedModelView>) -> Seq<EntryView>
    decreases models.len(),
{
    if models.len() == 0 {
        Seq::empty()
    } else {
        model_entries(models[0]) + entries_of(models.drop_first())
    }
}

/// A `]` that no `]` precedes from `at` on is the first one from `at` on.
pub proof fn lemma_first_close_is(tokens: Seq<TokenView>, at: int, close: int)
    requires
        0 <= at <= close < tokens.len(),
        forall|k: int| at <= k < close ==> #[trigger] tokens[k] != TokenView::Close,
        tokens[close] == TokenView::Close,
    ensures
        first_close(tokens, at) == close,
    decreases close - at,
{
    if at < close {
        assert(tokens[at] != TokenView::Close);
        lemma_first_close_is(tokens, at + 1, close);
    }
}

/// `name = "<literal>"` is read as the name entry.
pub proof fn lemma_name_entry_is_read(tokens: Seq<TokenView>, at: int, name: Seq<char>)
    requires
        0 <= at,
        at + 3 <= tokens.len(),
        tokens[at] == TokenView::Word("name"@),
        tokens[at + 1] == TokenView::Equals,
        tokens[at + 2] == TokenView::Literal(name),
    ensures
        entry_at(tokens, at) == Some((EntryView::Name(name), at + 3)),
{
}

/// `fields = [<identifier>, ...]` and `extra_derives = [<identifier>, ...]`
/// are read as the list entries of their keys.
pub proof fn lemma_list_entry_is_read(
    tokens: Seq<TokenView>,
    at: int,
    key: Seq<char>,
    words: Seq<Seq<char>>,
)
    requires
        0 <= at,
        key == "fields"@ || key == "extra_derives"@,
        forall|i: int| 0 <= i < words.len() ==> is_identifier(#[trigger] words[i]),
        at + 4 + word_list_tokens(words).len() <= tokens.len(),
        tokens[at] == TokenView::Word(key),
        tokens[at + 1] == TokenView::Equals,
        tokens[at + 2] == TokenView::Open,
        forall|k: int|
            0 <= k < word_list_tokens(words).len() ==> #[trigger] tokens[at + 3 + k]
                == word_list_tokens(words)[k],
        tokens[at + 3 + word_list_tokens(words).len()] == TokenView::Close,
    ensures
        entry_at(tokens, at) == Some(
            (
                if key == "fields"@ {
                    EntryView::Fields(words)
                } else {
                    EntryView::Extras(words)
                },
                at + 4 + word_list_tokens(words).len(),
            ),
        ),
{
    reveal_strlit("name");
    reveal_strlit("fields");
    reveal_strlit("extra_derives");
    let list = word_list_tokens(words);
    let close = at + 3 + list.len();
    lemma_words_are_read(words);
    assert forall|k: int| at + 3 <= k < close implies #[trigger] tokens[k] != TokenView::Close by {
        assert(tokens[at + 3 + (k - at - 3)] == list[k - at - 3]);
    }
    lemma_first_close_is(tokens, at + 3, close);
    assert(tokens.subrange(at + 3, close) =~= list) by {
        assert forall|k: int| 0 <= k < list.len() implies tokens.subrange(at + 3, close)[k]
            == list[k] by {
            assert(tokens[at + 3 + k] == list[k]);
        }
    }
    assert("name"@.len() == 4);
    assert("fields"@.len() == 6);
    assert("extra_derives"@.len() == 13);
}

/// Where each token of a model stands in [`model_tokens`].
pub proof fn lemma_model_tokens(model: NestedModelView)
    ensures
        ({
            let own = model_tokens(model);
            let first = word_list_tokens(model.fields);
            let second = word_list_tokens(model.extra_capabilities);
            let l1 = first.len() as int;
            let l2 = second.len() as int;
            &&& own.len() == 13 + l1 + l2
            &&& own[0] == TokenView::Word("name"@)
            &&& own[1] == TokenView::Equals
            &&& own[2] == TokenView::Literal(model.name)
            &&& own[3] == TokenView::Comma
            &&& own[4] == TokenView::Word("fields"@)
            &&& own[5] == TokenView::Equals
            &&& own[6] == TokenView::Open
            &&& forall|k: int| 0 <= k < l1 ==> own[7 + k] == #[trigger] first[k]
            &&& own[7 + l1] == TokenView::Close
            &&& own[8 + l1] == TokenView::Comma
            &&& own[9 + l1] == TokenView::Word("extra_derives"@)
            &&& own[10 + l1] == TokenView::Equals
            &&& own[11 + l1] == TokenView::Open
            &&& forall|k: int| 0 <= k < l2 ==> own[12 + l1 + k] == #[trigger] second[k]
            &&& own[12 + l1 + l2] == TokenView::Close
        }),
{
    let first = word_list_tokens(model.fields);
    let second = word_list_tokens(model.extra_capabilities);
    let head = seq![
        TokenView::Word("name"@),
        TokenView::Equals,
        TokenView::Literal(model.name),
        TokenView::Comma,
        TokenView::Word("fields"@),
        TokenView::Equals,
        TokenView::Open,
    ];
    let middle = seq![
        TokenView::Close,
        TokenView::Comma,
        TokenView::Word("extra_derives"@),
        TokenView::Equals,
        TokenView::Open,
    ];
    let a = head + first;
    let b = a + middle;
    let c = b + second;
    let own = c + seq![TokenView::Close];
    assert(own == model_tokens(model));
    assert(head.len() == 7);
    assert(middle.len() == 5);
    assert forall|k: int| 0 <= k < first.len() implies own[7 + k] == #[trigger] first[k] by {
        assert(a[7 + k] == first[k]);
        assert(b[7 + k] == a[7 + k]);
        assert(c[7 + k] == b[7 + k]);
    }
    assert forall|k: int| 0 <= k < second.len() implies own[12 + first.len() as int + k]
        == #[trigger] second[k] by {
        assert(c[12 + first.len() as int + k] == second[k]);
    }
    assert forall|j: int| 0 <= j < 7 implies own[j] == head[j] by {
        assert(a[j] == head[j]);
        assert(b[j] == a[j]);
        assert(c[j] == b[j]);
    }
    assert forall|j: int| 0 <= j < 5 implies own[7 + first.len() as int + j] == middle[j] by {
        assert(b[7 + first.len() as int + j] == middle[j]);
        assert(c[7 + first.len() as int + j] == b[7 + first.len() as int + j]);
    }
    assert(own[0] == head[0]);
    assert(own[1] == head[1]);
    assert(own[2] == head[2]);
    assert(own[3] == head[3]);
    assert(own[4] == head[4]);
    assert(own[5] == head[5]);
    assert(own[6] == head[6]);
    assert(own[7 + first.len() as int + 0] == middle[0]);
    assert(own[7 + first.len() as int + 1] == middle[1]);
    assert(own[7 + first.len() as int + 2] == middle[2]);
    assert(own[7 + first.len() as int + 3] == middle[3]);
    assert(own[7 + first.len() as int + 4] == middle[4]);
}

/// The three entries of a model are read one after another, where the
/// model's tokens stand at `at`.
pub proof fn lemma_model_is_read(tokens: Seq<TokenView>, at: int, model: NestedModelView)
    requires
        0 <= at,
        names_are_identifiers(model),
        at + model_tokens(model).len() <= tokens.len(),
        forall|j: int|
            0 <= j < model_tokens(model).len() ==> #[trigger] tokens[at + j] == model_tokens(
                model,
            )[j],
    ensures
        ({
            let l1 = word_list_tokens(model.fields).len() as int;
            let l2 = word_list_tokens(model.extra_capabilities).len() as int;
            &&& model_tokens(model).len() == 13 + l1 + l2
            &&& entry_at(tokens, at) == Some((EntryView::Name(model.name), at + 3))
            &&& tokens[at + 3] == TokenView::Comma
            &&& entry_at(tokens, at + 4) == Some((EntryView::Fields(model.fields), at + 8 + l1))
            &&& tokens[at + 8 + l1] == TokenView::Comma
            &&& entry_at(tokens, at + 9 + l1) == Some(
                (EntryView::Extras(model.extra_capabilities), at + 13 + l1 + l2),
            )
        }),
{
    let own = model_tokens(model);
    let first = word_list_tokens(model.fields);
    let second = word_list_tokens(model.extra_capabilities);
    let l1 = first.len() as int;
    let l2 = second.len() as int;
    lemma_model_tokens(model);
    assert(tokens[at + 0] == own[0]);
    assert(tokens[at + 1] == own[1]);
    assert(tokens[at + 2] == own[2]);
    assert(tokens[at + 3] == own[3]);
    lemma_name_entry_is_read(tokens, at, model.name);

    let fields_at = at + 4;
    assert(tokens[at + 4] == own[4]);
    assert(tokens[at + 5] == own[5]);
    assert(tokens[at + 6] == own[6]);
    assert forall|k: int| 0 <= k < l1 implies #[trigger] tokens[fields_at + 3 + k] == first[k] by {
        assert(tokens[at + (7 + k)] == own[7 + k]);
    }
    assert(tokens[at + (7 + l1)] == own[7 + l1]);
    lemma_list_entry_is_read(tokens, fields_at, "fields"@, model.fields);

    let extras_at = at + 9 + l1;
    assert(tokens[at + (8 + l1)] == own[8 + l1]);
    assert(tokens[at + (9 + l1)] == own[9 + l1]);
    assert(tokens[at + (10 + l1)] == own[10 + l1]);
    assert(tokens[at + (11 + l1)] == own[11 + l1]);
    assert forall|k: int| 0 <= k < l2 implies #[trigger] tokens[extras_at + 3 + k] == second[k] by {
        assert(tokens[at + (12 + l1 + k)] == own[12 + l1 + k]);
    }
    assert(tokens[at + (12 + l1 + l2)] == own[12 + l1 + l2]);
    lemma_list_entry_is_read(tokens, extras_at, "extra_derives"@, model.extra_capabilities);
    reveal_strlit("fields");
    reveal_strlit("extra_derives");
    assert("fields"@.len() == 6);
    assert("extra_derives"@.len() == 13);
}

/// Behind any tokens, the tokens of a list of models begin with the tokens
/// of its first model; a comma and the tokens of the other models follow
/// where there are others.
pub proof fn lemma_models_tokens_begin(prefix: Seq<TokenView>, models: Seq<NestedModelView>)
    requires
        models.len() >= 1,
    ensures
        ({
            let tokens = prefix + models_tokens(models);
            let own = model_tokens(models[0]);
            let end = (prefix.len() + own.len()) as int;
            &&& end <= tokens.len()
            &&& forall|j: int| 0 <= j < own.len() ==> #[trigger] tokens[prefix.len() + j] == own[j]
            &&& models.len() == 1 ==> end == tokens.len()
            &&& models.len() > 1 ==> {
                &&& end < tokens.len()
                &&& tokens[end] == TokenView::Comma
                &&& tokens == prefix + own + seq![TokenView::Comma] + models_tokens(
                    models.drop_first(),
                )
            }
        }),
{
    let tokens = prefix + models_tokens(models);
    let own = model_tokens(models[0]);
    if models.len() > 1 {
        let others = models_tokens(models.drop_first());
        let comma = seq![TokenView::Comma];
        assert(models_tokens(models) == own + comma + others);
        assert forall|j: int| 0 <= j < own.len() implies #[trigger] tokens[prefix.len() + j]
            == own[j] by {
            assert((own + comma)[j] == own[j]);
            assert(models_tokens(models)[j] == own[j]);
        }
        assert((own + comma)[own.len() as int] == TokenView::Comma);
        assert(models_tokens(models)[own.len() as int] == TokenView::Comma);
        assert(tokens =~= prefix + own + comma + others);
    } else {
        assert(models_tokens(models) == own);
    }
}

/// The entries of a list of models begin with the three entries of its
/// first model.
pub proof fn lemma_entries_of_begin(models: Seq<NestedModelView>)
    requires
        models.len() >= 1,
    ensures
        entries_of(models) == seq![EntryView::Name(models[0].name)] + (seq![
            EntryView::Fields(models[0].fields),
        ] + (seq![EntryView::Extras(models[0].extra_capabilities)] + entries_of(
            models.drop_first(),
        ))),
{
    let rest = entries_of(models.drop_first());
    assert(entries_of(models) == model_entries(models[0]) + rest);
    assert(model_entries(models[0]) + rest =~= seq![EntryView::Name(models[0].name)] + (seq![
        EntryView::Fields(models[0].fields),
    ] + (seq![EntryView::Extras(models[0].extra_capabilities)] + rest)));
}

/// An entry that ends the tokens is the last entry.
pub proof fn lemma_last_entry(tokens: Seq<TokenView>, at: int, entry: EntryView)
    requires
        entry_at(tokens, at) == Some((entry, tokens.len() as int)),
    ensures
        entries_from(tokens, at) == Some(seq![entry] + Seq::<EntryView>::empty()),
{
    assert(seq![entry] + Seq::<EntryView>::empty() =~= seq![entry]);
}

/// An entry with a comma behind it stands before the entries that follow
/// the comma.
pub proof fn lemma_next_entry(
    tokens: Seq<TokenView>,
    at: int,
    entry: EntryView,
    next: int,
    rest: Seq<EntryView>,
)
    requires
        entry_at(tokens, at) == Some((entry, next)),
        at < next < tokens.len(),
        tokens[next] == TokenView::Comma,
        entries_from(tokens, next + 1) == Some(rest),
    ensures
        entries_from(tokens, at) == Some(seq![entry] + rest),
{
}

/// The tokens of one or more models, each with valid names, are read as the
/// entries of those models. The tokens may stand behind any others.
pub proof fn lemma_entries_are_read(prefix: Seq<TokenView>, models: Seq<NestedModelView>)
    requires
        models.len() >= 1,
        forall|i: int| 0 <= i < models.len() ==> names_are_identifiers(#[trigger] models[i]),
    ensures
        entries_from(prefix + models_tokens(models), prefix.len() as int) == Some(
            entries_of(models),
        ),
    decreases models.len(),
{
    let tokens = prefix + models_tokens(models);
    let at = prefix.len() as int;
    let model = models[0];
    let rest = models.drop_first();
    let l1 = word_list_tokens(model.fields).len() as int;
    let l2 = word_list_tokens(model.extra_capabilities).len() as int;
    let end = at + 13 + l1 + l2;
    let name = EntryView::Name(model.name);
    let fields = EntryView::Fields(model.fields);
    let extras = EntryView::Extras(model.extra_capabilities);
    assert(names_are_identifiers(model));
    lemma_models_tokens_begin(prefix, models);
    lemma_model_is_read(tokens, at, model);
    lemma_entries_of_begin(models);
    if models.len() == 1 {
        assert(entries_of(rest) =~= Seq::<EntryView>::empty());
        lemma_last_entry(tokens, at + 9 + l1, extras);
    } else {
        assert forall|i: int| 0 <= i < rest.len() implies names_are_identifiers(
            #[trigger] rest[i],
        ) by {
            assert(rest[i] == models[i + 1]);
        }
        lemma_entries_are_read(prefix + model_tokens(model) + seq![TokenView::Comma], rest);
        lemma_next_entry(tokens, at + 9 + l1, extras, end, entries_of(rest));
    }
    lemma_next_entry(tokens, at + 4, fields, at + 8 + l1, seq![extras] + entries_of(rest));
    lemma_next_entry(tokens, at, name, at + 3, seq![fields] + (seq![extras] + entries_of(rest)));
}

/// The draft of a model of which every entry was read.
pub open spec fn complete_draft(model: NestedModelView) -> DraftView {
    DraftView {
        name: Some(model.name),
        fields: Some(model.fields),
        extras: Some(model.extra_capabilities),
    }
}

/// The drafts of a list of models, in order.
pub open spec fn complete_drafts(models: Seq<NestedModelView>) -> Seq<DraftView> {
    models.map_values(|model: NestedModelView| complete_draft(model))
}

/// The drafts after one more entry: the entry goes to the last draft unless
/// that draft has its key, and then it begins a new draft.
pub open spec fn put(drafts: Seq<DraftView>, entry: EntryView) -> Seq<DraftView> {
    if drafts.len() > 0 && !drafts.last().has(entry) {
        drafts.update(drafts.len() - 1, drafts.last().with(entry))
    } else {
        drafts.push(DraftView::empty().with(entry))
    }
}

/// The drafts after a run of entries, put one after another.
pub open spec fn put_all(drafts: Seq<DraftView>, entries: Seq<EntryView>) -> Seq<DraftView>
    decreases entries.len(),
{
    if entries.len() == 0 {
        drafts
    } else {
        put_all(put(drafts, entries[0]), entries.drop_first())
    }
}

/// Grouping a run of entries is grouping its front part and then putting
/// the entries of its back part one after another.
pub proof fn lemma_grouped_in_two(front: Seq<EntryView>, back: Seq<EntryView>)
    ensures
        grouped(front + back) == put_all(grouped(front), back),
    decreases back.len(),
{
    if back.len() == 0 {
        assert(front + back =~= front);
    } else {
        let longer = front.push(back[0]);
        assert(front + back =~= longer + back.drop_first());
        lemma_grouped_in_two(longer, back.drop_first());
        assert(longer.drop_last() =~= front);
        assert(longer.last() == back[0]);
        assert(grouped(longer) == put(grouped(front), back[0]));
    }
}

/// Putting the entries of a model behind drafts whose last one has a name
/// adds the complete draft of the model.
pub proof fn lemma_put_model(drafts: Seq<DraftView>, model: NestedModelView)
    requires
        drafts.len() == 0 || drafts.last().name is Some,
    ensures
        put_all(drafts, model_entries(model)) == drafts.push(complete_draft(model)),
{
    let entries = model_entries(model);
    let named = drafts.push(DraftView::empty().with(entries[0]));
    assert(put(drafts, entries[0]) == named);
    let after_name = entries.drop_first();
    assert(after_name[0] == entries[1]);
    let listed = named.update(named.len() - 1, named.last().with(entries[1]));
    assert(put(named, entries[1]) == listed);
    let after_fields = after_name.drop_first();
    assert(after_fields[0] == entries[2]);
    let complete = listed.update(listed.len() - 1, listed.last().with(entries[2]));
    assert(put(listed, entries[2]) == complete);
    assert(after_fields.drop_first().len() == 0);
    assert(put_all(complete, after_fields.drop_first()) == complete);
    assert(put_all(listed, after_fields) == complete);
    assert(put_all(named, after_name) == complete);
    assert(put_all(drafts, entries) == complete);
    assert(complete =~= drafts.push(complete_draft(model)));
}

/// Putting two runs of entries one after the other is putting their
/// concatenation.
pub proof fn lemma_put_all_in_two(
    drafts: Seq<DraftView>,
    front: Seq<EntryView>,
    back: Seq<EntryView>,
)
    ensures
        put_all(drafts, front + back) == put_all(put_all(drafts, front), back),
    decreases front.len(),
{
    if front.len() == 0 {
        assert(front + back =~= back);
    } else {
        assert((front + back)[0] == front[0]);
        assert((front + back).drop_first() =~= front.drop_first() + back);
        lemma_put_all_in_two(put(drafts, front[0]), front.drop_first(), back);
    }
}

/// Putting the entries of a list of models behind drafts whose last one has
/// a name adds the complete drafts of the models.
pub proof fn lemma_put_models(drafts: Seq<DraftView>, models: Seq<NestedModelView>)
    requires
        drafts.len() == 0 || drafts.last().name is Some,
    ensures
        put_all(drafts, entries_of(models)) == drafts + complete_drafts(models),
    decreases models.len(),
{
    if models.len() == 0 {
        assert(drafts + complete_drafts(models) =~= drafts);
    } else {
        let rest = models.drop_first();
        let longer = drafts.push(complete_draft(models[0]));
        lemma_put_all_in_two(drafts, model_entries(models[0]), entries_of(rest));
        lemma_put_model(drafts, models[0]);
        lemma_put_models(longer, rest);
        assert(longer + complete_drafts(rest) =~= drafts + complete_drafts(models));
    }
}

/// The directive parser reads the tokens of one or more models, each
/// written with its three entries and with identifiers as names, as
/// exactly those models.
pub proof fn lemma_models_are_read(models: Seq<NestedModelView>)
    requires
        models.len() >= 1,
        forall|i: int| 0 <= i < models.len() ==> names_are_identifiers(#[trigger] models[i]),
    ensures
        nested_models_in(models_tokens(models)) == Ok::<Seq<NestedModelView>, DirectiveError>(
            models,
        ),
{
    let tokens = models_tokens(models);
    let entries = entries_of(models);
    lemma_entries_are_read(Seq::empty(), models);
    assert(Seq::<TokenView>::empty() + tokens =~= tokens);
    lemma_grouped_in_two(Seq::empty(), entries);
    assert(Seq::<EntryView>::empty() + entries =~= entries);
    assert(grouped(Seq::<EntryView>::empty()) =~= Seq::<DraftView>::empty());
    lemma_put_models(Seq::empty(), models);
    let drafts = complete_drafts(models);
    assert(Seq::<DraftView>::empty() + drafts =~= drafts);
    assert(grouped(entries) == drafts);
    assert forall|i: int| 0 <= i < drafts.len() implies (#[trigger] drafts[i]).name is Some by {}
    assert(drafts.map_values(|d: DraftView| d.model()) =~= models);
    assert(models_of(drafts) == Ok::<Seq<NestedModelView>, DirectiveError>(models));
}

} // verus!
