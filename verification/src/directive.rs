//! The directive parser: what the attributes on a type ask of the
//! generators.
//!
//! Four attributes are directives; every other attribute is passed over.
//!
//! ```text
//! #[table_name(<expression>)]
//! #[use_attrs_with_query]
//! #[query_params("<literal>", "<literal>", ...)]
//! #[custom_model(<entry>, <entry>, ...)]
//!
//! <entry> := name = "<literal>"
//!          | fields = [<identifier>, ...]
//!          | extra_derives = [<identifier>, ...]
//! ```
//!
//! The entries of `custom_model` describe one model after another. The
//! entries of a model come in any order; an entry whose key the model
//! already has begins the next model. Every model needs a `name`; a list
//! that is left out is empty.

use crate::declaration::{attribute_views, RawAttribute};
use crate::schema::{identifier, is_identifier};
use crate::syntax::{optional_text, AttributeView};
use crate::text::{same_text, texts};
use crate::token::{scanned, token_views, tokenize, Token, TokenView};
use vstd::prelude::*;

verus! {

/// An auxiliary type declared inside the `custom_model` directive. Its
/// fields are its own: nothing ties them to the fields of the host type.
#[derive(Debug, PartialEq, Eq)]
pub struct NestedModel {
    /// The name of the auxiliary type.
    pub name: String,
    /// The names of its fields, in order.
    pub fields: Vec<String>,
    /// The further capabilities that the auxiliary type derives, in order.
    pub extra_capabilities: Vec<String>,
}

/// The mathematical content of a [`NestedModel`].
pub struct NestedModelView {
    pub name: Seq<char>,
    pub fields: Seq<Seq<char>>,
    pub extra_capabilities: Seq<Seq<char>>,
}

impl View for NestedModel {
    type V = NestedModelView;

    open spec fn view(&self) -> NestedModelView {
        NestedModelView {
            name: self.name@,
            fields: texts(self.fields@),
            extra_capabilities: texts(self.extra_capabilities@),
        }
    }
}

/// The views of a list of nested models, in order.
pub open spec fn model_views(models: Seq<NestedModel>) -> Seq<NestedModelView> {
    models.map_values(|m: NestedModel| m@)
}

/// The directives on one type.
#[derive(Debug, PartialEq, Eq)]
pub struct DirectiveSet {
    /// The argument of the `table_name` directive.
    pub table_name: Option<String>,
    /// Whether the `use_attrs_with_query` directive is there.
    pub use_columns_only: bool,
    /// The literals of the `query_params` directives, in order.
    pub query_params: Vec<String>,
    /// The models of the `custom_model` directives, in order.
    pub nested_models: Vec<NestedModel>,
}

/// The mathematical content of a [`DirectiveSet`].
pub struct DirectiveSetView {
    pub table_name: Option<Seq<char>>,
    pub use_columns_only: bool,
    pub query_params: Seq<Seq<char>>,
    pub nested_models: Seq<NestedModelView>,
}

impl View for DirectiveSet {
    type V = DirectiveSetView;

    open spec fn view(&self) -> DirectiveSetView {
        DirectiveSetView {
            table_name: optional_text(self.table_name),
            use_columns_only: self.use_columns_only,
            query_params: texts(self.query_params@),
            nested_models: model_views(self.nested_models@),
        }
    }
}

/// Why a directive was refused.
#[derive(Debug, Clone, Copy, PartialEq, Eq, Structural)]
pub enum DirectiveError {
    /// `table_name` without an argument list that is one expression.
    TableName,
    /// `query_params` without a list of one or more string literals.
    QueryParams,
    /// `custom_model` whose argument list is not a list of model entries.
    CustomModel,
    /// A model of `custom_model` without a `name` entry.
    ModelWithoutName,
}

impl DirectiveError {
    /// The error's text: the directive and the shape that it expects.
    pub open spec fn message_of(self) -> Seq<char> {
        match self {
            DirectiveError::TableName =>
                "The `table_name` attribute expects string literals to be comma separated\n\n= help: use `#[table_name(\"users\")]`"@,
            DirectiveError::QueryParams =>
                "The `query_params` attribute expects string literals to be comma separated\n\n= help: use `#[query_params(\"id\", \"name\")]`"@,
            DirectiveError::CustomModel =>
                "The `custom_model` attribute expects comma separated entries\n\n= help: use `#[custom_model(name = \"UserName\", fields = [first_name, last_name], extra_derives = [Debug])]`"@,
            DirectiveError::ModelWithoutName => "model must have a name"@,
        }
    }

    /// The error's text.
    pub fn message(&self) -> (r: String)
        ensures
            r@ == self.message_of(),
    {
        match self {
            DirectiveError::TableName => String::from_str(
                "The `table_name` attribute expects string literals to be comma separated\n\n= help: use `#[table_name(\"users\")]`",
            ),
            DirectiveError::QueryParams => String::from_str(
                "The `query_params` attribute expects string literals to be comma separated\n\n= help: use `#[query_params(\"id\", \"name\")]`",
            ),
            DirectiveError::CustomModel => String::from_str(
                "The `custom_model` attribute expects comma separated entries\n\n= help: use `#[custom_model(name = \"UserName\", fields = [first_name, last_name], extra_derives = [Debug])]`",
            ),
            DirectiveError::ModelWithoutName => String::from_str("model must have a name"),
        }
    }
}

/// Whether `tokens` is one or more string literals with a comma between
/// neighbours.
pub open spec fn is_literal_list(tokens: Seq<TokenView>) -> bool {
    &&& tokens.len() % 2 == 1
    &&& forall|i: int|
        0 <= i < tokens.len() ==> if i % 2 == 0 {
            (#[trigger] tokens[i]) is Literal
        } else {
            tokens[i] == TokenView::Comma
        }
}

/// Whether `tokens` is a list of identifiers with a comma between
/// neighbours; the list may be empty.
pub open spec fn is_word_list(tokens: Seq<TokenView>) -> bool {
    ||| tokens.len() == 0
    ||| {
        &&& tokens.len() % 2 == 1
        &&& forall|i: int|
            0 <= i < tokens.len() ==> if i % 2 == 0 {
                (#[trigger] tokens[i]) matches TokenView::Word(w) && is_identifier(w)
            } else {
                tokens[i] == TokenView::Comma
            }
    }
}

/// The text that an item token holds.
pub open spec fn item_text(token: TokenView) -> Seq<char> {
    match token {
        TokenView::Word(w) => w,
        TokenView::Literal(l) => l,
        _ => Seq::empty(),
    }
}

/// The items of a comma separated list: the texts of the tokens at the even
/// positions.
pub open spec fn list_items(tokens: Seq<TokenView>) -> Seq<Seq<char>> {
    Seq::new(((tokens.len() + 1) / 2) as nat, |k: int| item_text(tokens[2 * k]))
}

/// What the tokens of the argument list of `query_params` mean: the
/// literals in order, where the tokens are one or more string literals
/// separated by commas.
pub open spec fn query_params_in(tokens: Seq<TokenView>) -> Result<Seq<Seq<char>>, DirectiveError> {
    if is_literal_list(tokens) {
        Ok(list_items(tokens))
    } else {
        Err(DirectiveError::QueryParams)
    }
}

/// What the argument list of `query_params` means.
pub open spec fn query_params_of(arguments: Seq<char>) -> Result<Seq<Seq<char>>, DirectiveError> {
    match scanned(arguments) {
        Some(tokens) => query_params_in(tokens),
        None => Err(DirectiveError::QueryParams),
    }
}

/// Whether `token` is an item of the asked kind: a string literal, or else a
/// word that is an identifier.
pub open spec fn is_item(token: TokenView, literals: bool) -> bool {
    if literals {
        token is Literal
    } else {
        token matches TokenView::Word(w) && is_identifier(w)
    }
}

/// Reads `tokens[from..to]` as a comma separated list of one or more items.
/// `None` where it is not such a list.
fn read_items(tokens: &Vec<Token>, from: usize, to: usize, literals: bool) -> (r: Option<
    Vec<String>,
>)
    requires
        from <= to <= tokens.len(),
    ensures
        ({
            let part = token_views(tokens@).subrange(from as int, to as int);
            let listed = part.len() % 2 == 1 && forall|i: int|
                0 <= i < part.len() ==> if i % 2 == 0 {
                    is_item(#[trigger] part[i], literals)
                } else {
                    part[i] == TokenView::Comma
                };
            match r {
                Some(items) => listed && texts(items@) == list_items(part),
                None => !listed,
            }
        }),
{
    let ghost part = token_views(tokens@).subrange(from as int, to as int);
    if (to - from) % 2 != 1 {
        return None;
    }
    let mut items: Vec<String> = Vec::new();
    let mut i: usize = from;
    while i < to
        invariant
            from <= i <= to <= tokens.len(),
            (to - from) % 2 == 1,
            (i - from) % 2 == 0 || i == to,
            part == token_views(tokens@).subrange(from as int, to as int),
            forall|k: int|
                0 <= k < i - from ==> if k % 2 == 0 {
                    is_item(#[trigger] part[k], literals)
                } else {
                    part[k] == TokenView::Comma
                },
            items.len() == (i - from + 1) / 2,
            forall|k: int| 0 <= k < items.len() ==> (#[trigger] items@[k])@ == item_text(part[2 * k]),
        decreases to - i,
    {
        assert(part[i - from] == tokens@[i as int]@);
        match &tokens[i] {
            Token::Literal(l) => {
                if !literals {
                    return None;
                }
                items.push(l.clone());
            },
            Token::Word(w) => {
                if literals || !identifier(w.as_str()) {
                    return None;
                }
                items.push(w.clone());
            },
            _ => {
                return None;
            },
        }
        if i + 1 < to {
            assert(part[i + 1 - from] == tokens@[i + 1]@);
            match &tokens[i + 1] {
                Token::Comma => {},
                _ => {
                    return None;
                },
            }
            i = i + 2;
        } else {
            i = to;
        }
    }
    assert(texts(items@) =~= list_items(part));
    Some(items)
}

/// Reads the tokens of the argument list of `query_params`.
pub fn read_query_params(tokens: &Vec<Token>) -> (r: Result<Vec<String>, DirectiveError>)
    ensures
        match r {
            Ok(params) => query_params_in(token_views(tokens@)) == Ok::<
                Seq<Seq<char>>,
                DirectiveError,
            >(texts(params@)),
            Err(e) => query_params_in(token_views(tokens@)) == Err::<Seq<Seq<char>>, DirectiveError>(
                e,
            ),
        },
{
    assert(token_views(tokens@).subrange(0, tokens.len() as int) == token_views(tokens@));
    match read_items(tokens, 0, tokens.len(), true) {
        Some(params) => Ok(params),
        None => Err(DirectiveError::QueryParams),
    }
}

/// Reads the argument list of `query_params`.
pub fn parse_query_params(arguments: &str) -> (r: Result<Vec<String>, DirectiveError>)
    ensures
        match r {
            Ok(params) => query_params_of(arguments@) == Ok::<Seq<Seq<char>>, DirectiveError>(
                texts(params@),
            ),
            Err(e) => query_params_of(arguments@) == Err::<Seq<Seq<char>>, DirectiveError>(e),
        },
{
    match tokenize(arguments) {
        Some(tokens) => read_query_params(&tokens),
        None => Err(DirectiveError::QueryParams),
    }
}

/// One entry of the `custom_model` directive.
pub enum EntryView {
    /// `name = "<literal>"`
    Name(Seq<char>),
    /// `fields = [identifier, ...]`
    Fields(Seq<Seq<char>>),
    /// `extra_derives = [identifier, ...]`
    Extras(Seq<Seq<char>>),
}

enum Entry {
    Name(String),
    Fields(Vec<String>),
    Extras(Vec<String>),
}

impl View for Entry {
    type V = EntryView;

    closed spec fn view(&self) -> EntryView {
        match self {
            Entry::Name(n) => EntryView::Name(n@),
            Entry::Fields(f) => EntryView::Fields(texts(f@)),
            Entry::Extras(e) => EntryView::Extras(texts(e@)),
        }
    }
}

/// The position of the first `]` at or behind `at`, or the number of tokens
/// if there is none.
pub open spec fn first_close(tokens: Seq<TokenView>, at: int) -> int
    decreases tokens.len() - at,
{
    if 0 <= at < tokens.len() && tokens[at] != TokenView::Close {
        first_close(tokens, at + 1)
    } else {
        at
    }
}

/// The entry that begins at `at` and the position behind it: a key, `=`,
/// and a string literal for the key `name` or a bracketed list of
/// identifiers for the keys `fields` and `extra_derives`.
pub open spec fn entry_at(tokens: Seq<TokenView>, at: int) -> Option<(EntryView, int)> {
    if 0 <= at && at + 2 < tokens.len() && tokens[at + 1] == TokenView::Equals {
        match tokens[at] {
            TokenView::Word(key) => {
                if key == "name"@ {
                    match tokens[at + 2] {
                        TokenView::Literal(name) => Some((EntryView::Name(name), at + 3)),
                        _ => None,
                    }
                } else if key == "fields"@ || key == "extra_derives"@ {
                    let close = first_close(tokens, at + 3);
                    if tokens[at + 2] == TokenView::Open && close < tokens.len() && is_word_list(
                        tokens.subrange(at + 3, close),
                    ) {
                        let words = list_items(tokens.subrange(at + 3, close));
                        if key == "fields"@ {
                            Some((EntryView::Fields(words), close + 1))
                        } else {
                            Some((EntryView::Extras(words), close + 1))
                        }
                    } else {
                        None
                    }
                } else {
                    None
                }
            },
            _ => None,
        }
    } else {
        None
    }
}

/// The entries from position `at` to the end of the tokens: one or more,
/// with a comma between neighbours.
pub open spec fn entries_from(tokens: Seq<TokenView>, at: int) -> Option<Seq<EntryView>>
    decreases tokens.len() - at,
{
    match entry_at(tokens, at) {
        Some((entry, next)) => if next == tokens.len() {
            Some(seq![entry])
        } else if at < next < tokens.len() && tokens[next] == TokenView::Comma {
            match entries_from(tokens, next + 1) {
                Some(rest) => Some(seq![entry] + rest),
                None => None,
            }
        } else {
            None
        },
        None => None,
    }
}

/// A model while its entries are read.
pub struct DraftView {
    pub name: Option<Seq<char>>,
    pub fields: Option<Seq<Seq<char>>>,
    pub extras: Option<Seq<Seq<char>>>,
}

impl DraftView {
    /// The draft without any entry.
    pub open spec fn empty() -> DraftView {
        DraftView { name: None, fields: None, extras: None }
    }

    /// Whether the draft already has an entry with the key of `entry`.
    pub open spec fn has(self, entry: EntryView) -> bool {
        match entry {
            EntryView::Name(_) => self.name is Some,
            EntryView::Fields(_) => self.fields is Some,
            EntryView::Extras(_) => self.extras is Some,
        }
    }

    /// The draft with `entry` put in.
    pub open spec fn with(self, entry: EntryView) -> DraftView {
        match entry {
            EntryView::Name(n) => DraftView { name: Some(n), ..self },
            EntryView::Fields(f) => DraftView { fields: Some(f), ..self },
            EntryView::Extras(e) => DraftView { extras: Some(e), ..self },
        }
    }

    /// The model of a draft that has a name: a list that was left out is
    /// empty.
    pub open spec fn model(self) -> NestedModelView {
        NestedModelView {
            name: self.name->0,
            fields: match self.fields {
                Some(f) => f,
                None => Seq::empty(),
            },
            extra_capabilities: match self.extras {
                Some(e) => e,
                None => Seq::empty(),
            },
        }
    }
}

/// The entries split into models: an entry goes to the model that is being
/// read unless that model already has an entry with its key, and then it
/// begins the next model.
pub open spec fn grouped(entries: Seq<EntryView>) -> Seq<DraftView>
    decreases entries.len(),
{
    if entries.len() == 0 {
        Seq::empty()
    } else {
        let front = grouped(entries.drop_last());
        let entry = entries.last();
        if front.len() > 0 && !front.last().has(entry) {
            front.update(front.len() - 1, front.last().with(entry))
        } else {
            front.push(DraftView::empty().with(entry))
        }
    }
}

/// The models of a list of drafts, where each draft has a name.
pub open spec fn models_of(drafts: Seq<DraftView>) -> Result<Seq<NestedModelView>, DirectiveError> {
    if forall|i: int| 0 <= i < drafts.len() ==> (#[trigger] drafts[i]).name is Some {
        Ok(drafts.map_values(|d: DraftView| d.model()))
    } else {
        Err(DirectiveError::ModelWithoutName)
    }
}

/// What the tokens of the argument list of `custom_model` mean: one model
/// for each group of entries.
pub open spec fn nested_models_in(tokens: Seq<TokenView>) -> Result<
    Seq<NestedModelView>,
    DirectiveError,
> {
    match entries_from(tokens, 0) {
        Some(entries) => models_of(grouped(entries)),
        None => Err(DirectiveError::CustomModel),
    }
}

/// What the argument list of `custom_model` means.
pub open spec fn nested_models_of(arguments: Seq<char>) -> Result<
    Seq<NestedModelView>,
    DirectiveError,
> {
    match scanned(arguments) {
        Some(tokens) => nested_models_in(tokens),
        None => Err(DirectiveError::CustomModel),
    }
}

fn find_close(tokens: &Vec<Token>, at: usize) -> (close: usize)
    requires
        at <= tokens.len(),
    ensures
        close == first_close(token_views(tokens@), at as int),
        at <= close <= tokens.len(),
{
    let mut close: usize = at;
    while close < tokens.len()
        invariant
            at <= close <= tokens.len(),
            first_close(token_views(tokens@), at as int) == first_close(
                token_views(tokens@),
                close as int,
            ),
        decreases tokens.len() - close,
    {
        assert(token_views(tokens@)[close as int] == tokens@[close as int]@);
        match &tokens[close] {
            Token::Close => {
                return close;
            },
            _ => {},
        }
        close = close + 1;
    }
    close
}

fn read_word_list(tokens: &Vec<Token>, from: usize, to: usize) -> (r: Option<Vec<String>>)
    requires
        from <= to <= tokens.len(),
    ensures
        ({
            let part = token_views(tokens@).subrange(from as int, to as int);
            match r {
                Some(words) => is_word_list(part) && texts(words@) == list_items(part),
                None => !is_word_list(part),
            }
        }),
{
    if from == to {
        let words: Vec<String> = Vec::new();
        assert(texts(words@) =~= list_items(
            token_views(tokens@).subrange(from as int, to as int),
        ));
        Some(words)
    } else {
        read_items(tokens, from, to, false)
    }
}

fn read_entry(tokens: &Vec<Token>, at: usize) -> (r: Option<(Entry, usize)>)
    requires
        at <= tokens.len(),
    ensures
        match r {
            Some((entry, next)) => entry_at(token_views(tokens@), at as int) == Some(
                (entry@, next as int),
            ) && at < next <= tokens.len(),
            None => entry_at(token_views(tokens@), at as int) is None,
        },
{
    let ghost views = token_views(tokens@);
    if tokens.len() < 3 || at >= tokens.len() - 2 {
        return None;
    }
    assert(views[at as int] == tokens@[at as int]@);
    assert(views[at + 1] == tokens@[at + 1]@);
    assert(views[at + 2] == tokens@[at + 2]@);
    match &tokens[at + 1] {
        Token::Equals => {},
        _ => {
            return None;
        },
    }
    match &tokens[at] {
        Token::Word(key) => {
            if same_text(key.as_str(), "name") {
                match &tokens[at + 2] {
                    Token::Literal(name) => Some((Entry::Name(name.clone()), at + 3)),
                    _ => None,
                }
            } else {
                let fields = same_text(key.as_str(), "fields");
                if fields || same_text(key.as_str(), "extra_derives") {
                    match &tokens[at + 2] {
                        Token::Open => {},
                        _ => {
                            return None;
                        },
                    }
                    let close = find_close(tokens, at + 3);
                    if close >= tokens.len() {
                        return None;
                    }
                    match read_word_list(tokens, at + 3, close) {
                        Some(words) => {
                            if fields {
                                Some((Entry::Fields(words), close + 1))
                            } else {
                                Some((Entry::Extras(words), close + 1))
                            }
                        },
                        None => None,
                    }
                } else {
                    None
                }
            }
        },
        _ => None,
    }
}

struct Draft {
    name: Option<String>,
    fields: Option<Vec<String>>,
    extras: Option<Vec<String>>,
}

spec fn optional_texts(o: Option<Vec<String>>) -> Option<Seq<Seq<char>>> {
    match o {
        Some(v) => Some(texts(v@)),
        None => None,
    }
}

impl View for Draft {
    type V = DraftView;

    closed spec fn view(&self) -> DraftView {
        DraftView {
            name: optional_text(self.name),
            fields: optional_texts(self.fields),
            extras: optional_texts(self.extras),
        }
    }
}

spec fn draft_views(drafts: Seq<Draft>) -> Seq<DraftView> {
    drafts.map_values(|d: Draft| d@)
}

/// The drafts after one more entry was read.
spec fn with_entry(drafts: Seq<DraftView>, entry: EntryView) -> Seq<DraftView> {
    if drafts.len() > 0 && !drafts.last().has(entry) {
        drafts.update(drafts.len() - 1, drafts.last().with(entry))
    } else {
        drafts.push(DraftView::empty().with(entry))
    }
}

fn put_entry(drafts: &mut Vec<Draft>, entry: Entry)
    ensures
        draft_views(final(drafts)@) == with_entry(draft_views(old(drafts)@), entry@),
{
    let ghost before = draft_views(drafts@);
    let mut current = match drafts.pop() {
        Some(last) => {
            let taken = match &entry {
                Entry::Name(_) => last.name.is_some(),
                Entry::Fields(_) => last.fields.is_some(),
                Entry::Extras(_) => last.extras.is_some(),
            };
            assert(last@ == before.last());
            assert(draft_views(drafts@) =~= before.drop_last());
            if taken {
                drafts.push(last);
                assert(draft_views(drafts@) =~= before);
                Draft { name: None, fields: None, extras: None }
            } else {
                last
            }
        },
        None => Draft { name: None, fields: None, extras: None },
    };
    let ghost kept = draft_views(drafts@);
    let ghost target = current@;
    match entry {
        Entry::Name(n) => {
            current.name = Some(n);
        },
        Entry::Fields(f) => {
            current.fields = Some(f);
        },
        Entry::Extras(e) => {
            current.extras = Some(e);
        },
    }
    assert(current@ == target.with(entry@));
    drafts.push(current);
    assert(draft_views(drafts@) =~= kept.push(target.with(entry@)));
    assert(draft_views(drafts@) =~= with_entry(before, entry@));
}

fn read_drafts(tokens: &Vec<Token>) -> (r: Option<Vec<Draft>>)
    ensures
        match r {
            Some(drafts) => entries_from(token_views(tokens@), 0) matches Some(entries)
                && draft_views(drafts@) == grouped(entries),
            None => entries_from(token_views(tokens@), 0) is None,
        },
{
    let ghost views = token_views(tokens@);
    let ghost mut done: Seq<EntryView> = Seq::empty();
    let mut drafts: Vec<Draft> = Vec::new();
    let mut at: usize = 0;
    assert(draft_views(drafts@) =~= grouped(done));
    loop
        invariant
            at <= tokens.len(),
            views == token_views(tokens@),
            draft_views(drafts@) == grouped(done),
            entries_from(views, 0) == match entries_from(views, at as int) {
                Some(rest) => Some(done + rest),
                None => None,
            },
        decreases tokens.len() - at,
    {
        match read_entry(tokens, at) {
            Some((entry, next)) => {
                let ghost e = entry@;
                put_entry(&mut drafts, entry);
                proof {
                    assert(done.push(e).drop_last() =~= done);
                    assert(draft_views(drafts@) == grouped(done.push(e)));
                }
                if next == tokens.len() {
                    assert(done + seq![e] =~= done.push(e));
                    return Some(drafts);
                }
                assert(views[next as int] == tokens@[next as int]@);
                match &tokens[next] {
                    Token::Comma => {},
                    _ => {
                        return None;
                    },
                }
                proof {
                    match entries_from(views, next + 1) {
                        Some(rest) => {
                            assert(done + (seq![e] + rest) =~= done.push(e) + rest);
                        },
                        None => {},
                    }
                    done = done.push(e);
                }
                at = next + 1;
            },
            None => {
                return None;
            },
        }
    }
}

fn finish_models(drafts: Vec<Draft>) -> (r: Result<Vec<NestedModel>, DirectiveError>)
    ensures
        match r {
            Ok(models) => models_of(draft_views(drafts@)) == Ok::<
                Seq<NestedModelView>,
                DirectiveError,
            >(model_views(models@)),
            Err(e) => models_of(draft_views(drafts@)) == Err::<Seq<NestedModelView>, DirectiveError>(
                e,
            ),
        },
{
    let ghost given = draft_views(drafts@);
    let mut left = drafts;
    let mut models: Vec<NestedModel> = Vec::new();
    let mut i: usize = 0;
    while i < left.len()
        invariant
            i <= left.len(),
            given == draft_views(drafts@),
            left.len() == given.len(),
            models.len() == i,
            forall|k: int| 0 <= k < i ==> (#[trigger] given[k]).name is Some,
            forall|k: int| 0 <= k < i ==> (#[trigger] models@[k])@ == given[k].model(),
            forall|k: int| i <= k < left.len() ==> (#[trigger] left@[k])@ == given[k],
        decreases left.len() - i,
    {
        let mut draft = Draft { name: None, fields: None, extras: None };
        std::mem::swap(&mut left[i], &mut draft);
        assert(draft@ == given[i as int]);
        let name = match draft.name {
            Some(name) => name,
            None => {
                assert(given[i as int].name is None);
                return Err(DirectiveError::ModelWithoutName);
            },
        };
        let fields = match draft.fields {
            Some(fields) => fields,
            None => Vec::new(),
        };
        let extra_capabilities = match draft.extras {
            Some(extras) => extras,
            None => Vec::new(),
        };
        let model = NestedModel { name, fields, extra_capabilities };
        assert(model@.fields =~= given[i as int].model().fields);
        assert(model@.extra_capabilities =~= given[i as int].model().extra_capabilities);
        models.push(model);
        i = i + 1;
    }
    assert(model_views(models@) =~= given.map_values(|d: DraftView| d.model()));
    Ok(models)
}

/// Reads the tokens of the argument list of `custom_model`.
pub fn read_nested_models(tokens: &Vec<Token>) -> (r: Result<Vec<NestedModel>, DirectiveError>)
    ensures
        match r {
            Ok(models) => nested_models_in(token_views(tokens@)) == Ok::<
                Seq<NestedModelView>,
                DirectiveError,
            >(model_views(models@)),
            Err(e) => nested_models_in(token_views(tokens@)) == Err::<
                Seq<NestedModelView>,
                DirectiveError,
            >(e),
        },
{
    match read_drafts(tokens) {
        Some(drafts) => finish_models(drafts),
        None => Err(DirectiveError::CustomModel),
    }
}

/// Reads the argument list of `custom_model`.
pub fn parse_nested_models(arguments: &str) -> (r: Result<Vec<NestedModel>, DirectiveError>)
    ensures
        match r {
            Ok(models) => nested_models_of(arguments@) == Ok::<Seq<NestedModelView>, DirectiveError>(
                model_views(models@),
            ),
            Err(e) => nested_models_of(arguments@) == Err::<Seq<NestedModelView>, DirectiveError>(e),
        },
{
    match tokenize(arguments) {
        Some(tokens) => read_nested_models(&tokens),
        None => Err(DirectiveError::CustomModel),
    }
}

impl DirectiveSetView {
    /// The directive set of a type without directives.
    pub open spec fn empty() -> DirectiveSetView {
        DirectiveSetView {
            table_name: None,
            use_columns_only: false,
            query_params: Seq::empty(),
            nested_models: Seq::empty(),
        }
    }

    /// The directive set after one more attribute was read. An attribute
    /// whose name is not a directive's changes nothing.
    pub open spec fn with(self, attribute: AttributeView) -> Result<DirectiveSetView, DirectiveError> {
        match attribute.name {
            Some(name) => {
                if name == "table_name"@ {
                    match attribute.expression {
                        Some(table) => Ok(DirectiveSetView { table_name: Some(table), ..self }),
                        None => Err(DirectiveError::TableName),
                    }
                } else if name == "use_attrs_with_query"@ {
                    Ok(DirectiveSetView { use_columns_only: true, ..self })
                } else if name == "query_params"@ {
                    match attribute.arguments {
                        Some(arguments) => match query_params_of(arguments) {
                            Ok(params) => Ok(
                                DirectiveSetView { query_params: self.query_params + params, ..self },
                            ),
                            Err(e) => Err(e),
                        },
                        None => Err(DirectiveError::QueryParams),
                    }
                } else if name == "custom_model"@ {
                    match attribute.arguments {
                        Some(arguments) => match nested_models_of(arguments) {
                            Ok(models) => Ok(
                                DirectiveSetView {
                                    nested_models: self.nested_models + models,
                                    ..self
                                },
                            ),
                            Err(e) => Err(e),
                        },
                        None => Err(DirectiveError::CustomModel),
                    }
                } else {
                    Ok(self)
                }
            },
            None => Ok(self),
        }
    }
}

/// The directive set of a list of attributes, read in order. The first
/// malformed directive is the error.
pub open spec fn directives_of(attributes: Seq<AttributeView>) -> Result<
    DirectiveSetView,
    DirectiveError,
>
    decreases attributes.len(),
{
    if attributes.len() == 0 {
        Ok(DirectiveSetView::empty())
    } else {
        match directives_of(attributes.drop_last()) {
            Ok(set) => set.with(attributes.last()),
            Err(e) => Err(e),
        }
    }
}

impl DirectiveSet {
    /// The directive set of a type without directives.
    pub fn new() -> (set: DirectiveSet)
        ensures
            set@ == DirectiveSetView::empty(),
    {
        let set = DirectiveSet {
            table_name: None,
            use_columns_only: false,
            query_params: Vec::new(),
            nested_models: Vec::new(),
        };
        assert(set@.query_params =~= Seq::empty());
        assert(set@.nested_models =~= Seq::empty());
        set
    }

    /// Reads one more attribute into the set.
    pub fn read(self, attribute: &RawAttribute) -> (r: Result<DirectiveSet, DirectiveError>)
        ensures
            match r {
                Ok(set) => self@.with(attribute@) == Ok::<DirectiveSetView, DirectiveError>(set@),
                Err(e) => self@.with(attribute@) == Err::<DirectiveSetView, DirectiveError>(e),
            },
    {
        let mut set = self;
        let ghost before = set@;
        let name = match &attribute.name {
            Some(name) => name,
            None => {
                return Ok(set);
            },
        };
        if same_text(name.as_str(), "table_name") {
            match &attribute.expression {
                Some(table) => {
                    set.table_name = Some(table.clone());
                    Ok(set)
                },
                None => Err(DirectiveError::TableName),
            }
        } else if same_text(name.as_str(), "use_attrs_with_query") {
            set.use_columns_only = true;
            Ok(set)
        } else if same_text(name.as_str(), "query_params") {
            match &attribute.arguments {
                Some(arguments) => match parse_query_params(arguments.as_str()) {
                    Ok(params) => {
                        let mut params = params;
                        let ghost added = texts(params@);
                        set.query_params.append(&mut params);
                        assert(texts(set.query_params@) =~= before.query_params + added);
                        Ok(set)
                    },
                    Err(e) => Err(e),
                },
                None => Err(DirectiveError::QueryParams),
            }
        } else if same_text(name.as_str(), "custom_model") {
            match &attribute.arguments {
                Some(arguments) => match parse_nested_models(arguments.as_str()) {
                    Ok(models) => {
                        let mut models = models;
                        let ghost added = model_views(models@);
                        set.nested_models.append(&mut models);
                        assert(model_views(set.nested_models@) =~= before.nested_models + added);
                        Ok(set)
                    },
                    Err(e) => Err(e),
                },
                None => Err(DirectiveError::CustomModel),
            }
        } else {
            Ok(set)
        }
    }
}

/// The directive parser: reads the attributes on a type, in order. An
/// attribute that is no directive is passed over; the first malformed
/// directive stops the reading and is the error.
pub fn parse_directives(attributes: &Vec<RawAttribute>) -> (r: Result<DirectiveSet, DirectiveError>)
    ensures
        match r {
            Ok(set) => directives_of(attribute_views(attributes@)) == Ok::<
                DirectiveSetView,
                DirectiveError,
            >(set@),
            Err(e) => directives_of(attribute_views(attributes@)) == Err::<
                DirectiveSetView,
                DirectiveError,
            >(e),
        },
{
    let ghost views = attribute_views(attributes@);
    let mut set = DirectiveSet::new();
    let mut i: usize = 0;
    while i < attributes.len()
        invariant
            i <= attributes.len(),
            views == attribute_views(attributes@),
            directives_of(views.take(i as int)) == Ok::<DirectiveSetView, DirectiveError>(set@),
        decreases attributes.len() - i,
    {
        assert(views.take(i + 1).drop_last() == views.take(i as int));
        assert(views.take(i + 1).last() == attributes@[i as int]@);
        match set.read(&attributes[i]) {
            Ok(next) => {
                set = next;
            },
            Err(e) => {
                proof {
                    lemma_directive_error_stays(views, i + 1);
                }
                return Err(e);
            },
        }
        i = i + 1;
    }
    assert(views.take(attributes.len() as int) == views);
    Ok(set)
}

/// Once a directive was refused, the attributes behind it change nothing.
pub proof fn lemma_directive_error_stays(attributes: Seq<AttributeView>, n: int)
    requires
        0 <= n <= attributes.len(),
        directives_of(attributes.take(n)) is Err,
    ensures
        directives_of(attributes) == directives_of(attributes.take(n)),
    decreases attributes.len() - n,
{
    if n < attributes.len() {
        assert(attributes.take(n + 1).drop_last() == attributes.take(n));
        lemma_directive_error_stays(attributes, n + 1);
    } else {
        assert(attributes.take(n) == attributes);
    }
}

} // verus!
