//! Rebuilding the form that the host's ajax endpoint expects from the object
//! literal embedded in a page.
use vstd::prelude::*;
use vstd::string::*;

use crate::extract::{extract, extract_spec, option_view, result_view, DATA_PATTERN};
use crate::text::{
    index_of, is_i32_literal, is_i32_literal_str, split_on, split_once, split_once_str, split_str, strip,
    strip_str,
};
use crate::ResolveError;

verus! {

/// The part of the lookup pattern for a variable that comes before its name.
pub const VAR_PATTERN_HEAD: &'static str = r"[^/].*var ";

/// The part of the lookup pattern for a variable that comes after its name.
pub const VAR_PATTERN_TAIL: &'static str = r"[ ]*=[ ]*'(.+)'";

/// The pattern that finds `var <name> = '<value>'` and captures the value.
pub open spec fn var_pattern(name: Seq<char>) -> Seq<char> {
    VAR_PATTERN_HEAD@ + name + VAR_PATTERN_TAIL@
}

/// Builds the lookup pattern for variable `name`.
pub fn var_pattern_of(name: &str) -> (r: String)
    ensures
        r@ == var_pattern(name@),
{
    let mut r = VAR_PATTERN_HEAD.to_owned();
    r.append(name);
    r.append(VAR_PATTERN_TAIL);
    r
}

/// The value that a raw value stands for by itself: a quoted literal without
/// its quotes, or an `i32` literal as it is. `None` for an indirect reference.
pub open spec fn literal_value(raw: Seq<char>) -> Option<Seq<char>> {
    if raw.len() > 0 && raw[0] == '\'' {
        Some(strip(raw, true))
    } else if is_i32_literal(raw) {
        Some(raw)
    } else {
        None
    }
}

/// The value of a field: its literal value, or else the value of the variable
/// that it names, looked up in `text`.
pub open spec fn value_spec(text: Seq<char>, raw: Seq<char>) -> Result<Seq<char>, ResolveError> {
    match literal_value(raw) {
        Some(v) => Ok(v),
        None => extract_spec(text, var_pattern(raw)),
    }
}

/// One `key : value` piece of the object literal, as a key/value pair.
pub open spec fn field_spec(text: Seq<char>, piece: Seq<char>) -> Result<
    (Seq<char>, Seq<char>),
    ResolveError,
> {
    match split_once(piece, ':') {
        None => Err(ResolveError::MalformedFragment),
        Some((k, v)) => match value_spec(text, strip(v, false)) {
            Ok(val) => Ok((strip(strip(k, false), true), val)),
            Err(e) => Err(e),
        },
    }
}

/// The pairs of `pieces` in order, or the failure of the first that fails.
pub open spec fn fields_spec(text: Seq<char>, pieces: Seq<Seq<char>>) -> Result<
    Seq<(Seq<char>, Seq<char>)>,
    ResolveError,
>
    decreases pieces.len(),
{
    if pieces.len() == 0 {
        Ok(Seq::empty())
    } else {
        match fields_spec(text, pieces.drop_last()) {
            Err(e) => Err(e),
            Ok(ps) => match field_spec(text, pieces.last()) {
                Err(e) => Err(e),
                Ok(p) => Ok(ps.push(p)),
            },
        }
    }
}

/// The parameters that the object literal of `text` holds.
pub open spec fn params_spec(text: Seq<char>) -> Result<Seq<(Seq<char>, Seq<char>)>, ResolveError> {
    match extract_spec(text, DATA_PATTERN@) {
        Err(e) => Err(e),
        Ok(fragment) => fields_spec(text, split_on(fragment, ',')),
    }
}

/// The form body rebuilt from the object literal of `text`.
pub open spec fn body_spec(text: Seq<char>) -> Result<Seq<char>, ResolveError> {
    match params_spec(text) {
        Err(e) => Err(e),
        Ok(ps) => Ok(form_body(ps)),
    }
}

pub open spec fn pairs_view(v: Seq<(String, String)>) -> Seq<(Seq<char>, Seq<char>)> {
    v.map_values(|p: (String, String)| (p.0@, p.1@))
}

/// What the `application/x-www-form-urlencoded` byte serializer makes of the
/// UTF-8 bytes of `s`.
pub uninterp spec fn form_component_of(s: Seq<char>) -> Seq<char>;

/// One encoded pair: `key=value`.
pub open spec fn form_field(p: (Seq<char>, Seq<char>)) -> Seq<char> {
    form_component_of(p.0) + seq!['='] + form_component_of(p.1)
}

/// The encoded pairs of `ps`, in order, joined by `&`.
pub open spec fn form_body(ps: Seq<(Seq<char>, Seq<char>)>) -> Seq<char>
    decreases ps.len(),
{
    if ps.len() == 0 {
        Seq::empty()
    } else if ps.len() == 1 {
        form_field(ps[0])
    } else {
        form_body(ps.drop_last()) + seq!['&'] + form_field(ps.last())
    }
}

/// Whether `s` holds neither of the form's separators.
pub open spec fn plain_component(s: Seq<char>) -> bool {
    forall|k: int| 0 <= k < s.len() ==> #[trigger] s[k] != '&' && s[k] != '='
}

/// `body` is the form encoding of `ps`, whose encoded keys and values hold no
/// separator.
pub open spec fn encodes(ps: Seq<(Seq<char>, Seq<char>)>, body: Seq<char>) -> bool {
    &&& body == form_body(ps)
    &&& forall|i: int|
        0 <= i < ps.len() ==> plain_component(form_component_of(#[trigger] ps[i].0))
            && plain_component(form_component_of(ps[i].1))
}

/// Relies on `url::form_urlencoded::Serializer` (`new` on an empty string,
/// `extend_pairs`, `finish`): each pair is written in order as its serialized
/// key, `=` and its serialized value, with `&` between two pairs; the byte
/// serializer writes only ASCII letters, digits, `*-._`, `+` and `%XX`, so no
/// serialized key or value holds `&` or `=`.
#[verifier::external_body]
fn form_encode(pairs: &Vec<(String, String)>) -> (r: String)
    ensures
        r@ == form_body(pairs_view(pairs@)) && forall|i: int|
            0 <= i < pairs@.len() ==> plain_component(form_component_of(#[trigger] pairs@[i].0@))
                && plain_component(form_component_of(pairs@[i].1@)),
{
    url::form_urlencoded::Serializer::new(String::new()).extend_pairs(pairs).finish()
}

/// Encodes `pairs`, in order, as an `application/x-www-form-urlencoded` body.
pub fn encode_params(pairs: &Vec<(String, String)>) -> (r: String)
    ensures
        encodes(pairs_view(pairs@), r@),
{
    let r = form_encode(pairs);
    assert forall|i: int| 0 <= i < pairs_view(pairs@).len() implies plain_component(
        form_component_of(#[trigger] pairs_view(pairs@)[i].0),
    ) && plain_component(form_component_of(pairs_view(pairs@)[i].1)) by {
        assert(pairs_view(pairs@)[i] == (pairs@[i].0@, pairs@[i].1@));
    }
    r
}

/// The value that `raw` stands for by itself; `None` for a reference.
pub fn literal_value_of(raw: &str) -> (r: Option<String>)
    ensures
        option_view(r) == literal_value(raw@),
{
    if raw.unicode_len() > 0 && raw.get_char(0) == '\'' {
        Some(strip_str(raw, true).to_owned())
    } else if is_i32_literal_str(raw) {
        Some(raw.to_owned())
    } else {
        None
    }
}

/// The value of the field whose raw value is `raw`: a literal, or the value
/// of the variable it names, as `text` assigns it.
pub fn field_value(text: &str, raw: &str) -> (r: Result<String, ResolveError>)
    ensures
        result_view(r) == value_spec(text@, raw@),
{
    match literal_value_of(raw) {
        Some(v) => Ok(v),
        None => {
            let pattern = var_pattern_of(raw);
            extract(text, pattern.as_str())
        },
    }
}

pub open spec fn pair_result_view(r: Result<(String, String), ResolveError>) -> Result<
    (Seq<char>, Seq<char>),
    ResolveError,
> {
    match r {
        Ok(p) => Ok((p.0@, p.1@)),
        Err(e) => Err(e),
    }
}

/// Parses one `key : value` piece of an object literal.
pub fn parse_field(text: &str, piece: &str) -> (r: Result<(String, String), ResolveError>)
    ensures
        pair_result_view(r) == field_spec(text@, piece@),
{
    match split_once_str(piece, ':') {
        None => Err(ResolveError::MalformedFragment),
        Some((k, v)) => {
            let raw = strip_str(v, false);
            match field_value(text, raw) {
                Ok(val) => {
                    let key = strip_str(strip_str(k, false), true);
                    Ok((key.to_owned(), val))
                },
                Err(e) => Err(e),
            }
        },
    }
}

pub open spec fn pairs_result_view(r: Result<Vec<(String, String)>, ResolveError>) -> Result<
    Seq<(Seq<char>, Seq<char>)>,
    ResolveError,
> {
    match r {
        Ok(v) => Ok(pairs_view(v@)),
        Err(e) => Err(e),
    }
}

/// Once a prefix of the pieces fails, all of them fail the same way.
proof fn lemma_fields_prefix_err(text: Seq<char>, pieces: Seq<Seq<char>>, m: int)
    requires
        0 <= m <= pieces.len(),
        fields_spec(text, pieces.subrange(0, m)) is Err,
    ensures
        fields_spec(text, pieces) == fields_spec(text, pieces.subrange(0, m)),
    decreases pieces.len() - m,
{
    if m < pieces.len() {
        assert(pieces.subrange(0, m + 1).drop_last() =~= pieces.subrange(0, m));
        lemma_fields_prefix_err(text, pieces, m + 1);
    } else {
        assert(pieces.subrange(0, m) =~= pieces);
    }
}

/// Parses the comma-separated pieces of the object literal `fragment`,
/// looking up indirect values in `text`.
pub fn parse_fields(text: &str, fragment: &str) -> (r: Result<Vec<(String, String)>, ResolveError>)
    ensures
        pairs_result_view(r) == fields_spec(text@, split_on(fragment@, ',')),
{
    let pieces = split_str(fragment, ',');
    let ghost pv = pieces@.map_values(|p: &str| p@);
    let mut out: Vec<(String, String)> = Vec::new();
    let mut i: usize = 0;
    assert(pv.subrange(0, 0) =~= Seq::<Seq<char>>::empty());
    assert(pairs_view(out@) =~= Seq::<(Seq<char>, Seq<char>)>::empty());
    while i < pieces.len()
        invariant
            pv == pieces@.map_values(|p: &str| p@),
            pv == split_on(fragment@, ','),
            i <= pieces.len(),
            fields_spec(text@, pv.subrange(0, i as int)) == Ok::<
                Seq<(Seq<char>, Seq<char>)>,
                ResolveError,
            >(pairs_view(out@)),
        decreases pieces.len() - i,
    {
        let ghost before = pairs_view(out@);
        assert(pv.subrange(0, i + 1).drop_last() =~= pv.subrange(0, i as int));
        assert(pv.subrange(0, i + 1).last() == pieces@[i as int]@);
        match parse_field(text, pieces[i]) {
            Ok(p) => {
                out.push(p);
                assert(pairs_view(out@) =~= before.push((p.0@, p.1@)));
            },
            Err(e) => {
                proof { lemma_fields_prefix_err(text@, pv, i + 1); }
                return Err(e);
            },
        }
        i = i + 1;
    }
    assert(pv.subrange(0, i as int) =~= pv);
    Ok(out)
}

/// The parameters held by the object literal of `text`, in order.
pub fn reconstruct_params(text: &str) -> (r: Result<Vec<(String, String)>, ResolveError>)
    ensures
        pairs_result_view(r) == params_spec(text@),
{
    let fragment = extract(text, DATA_PATTERN)?;
    parse_fields(text, fragment.as_str())
}

/// The form body rebuilt from the object literal of `text`.
pub fn reconstruct(text: &str) -> (r: Result<String, ResolveError>)
    ensures
        result_view(r) == body_spec(text@),
{
    match reconstruct_params(text) {
        Ok(pairs) => Ok(encode_params(&pairs)),
        Err(e) => Err(e),
    }
}

/// The fields of a form body, in order, each cut at its first `=` into its
/// encoded key and encoded value.
pub open spec fn form_fields(body: Seq<char>) -> Seq<Option<(Seq<char>, Seq<char>)>> {
    split_on(body, '&').map_values(|f: Seq<char>| split_once(f, '='))
}

/// What `form_fields` should give back for `ps`: the encoded pairs, in order.
pub open spec fn encoded_pairs(ps: Seq<(Seq<char>, Seq<char>)>) -> Seq<
    Option<(Seq<char>, Seq<char>)>,
> {
    ps.map_values(
        |p: (Seq<char>, Seq<char>)| Some((form_component_of(p.0), form_component_of(p.1))),
    )
}

proof fn lemma_split_no_sep(b: Seq<char>, sep: char)
    requires
        forall|k: int| 0 <= k < b.len() ==> b[k] != sep,
    ensures
        split_on(b, sep) == seq![b],
    decreases b.len(),
{
    if b.len() == 0 {
        assert(b =~= Seq::<char>::empty());
    } else {
        lemma_split_no_sep(b.drop_last(), sep);
        assert(b.last() == b[b.len() - 1]);
        assert(b.last() != sep);
        assert(b.drop_last().push(b.last()) =~= b);
        assert(seq![b.drop_last()].update(0, b.drop_last().push(b.last())) =~= seq![b]);
    }
}

proof fn lemma_split_after_sep(a: Seq<char>, b: Seq<char>, sep: char)
    requires
        forall|k: int| 0 <= k < b.len() ==> b[k] != sep,
    ensures
        split_on(a + seq![sep] + b, sep) == split_on(a, sep).push(b),
    decreases b.len(),
{
    if b.len() == 0 {
        assert((a + seq![sep] + b).drop_last() =~= a);
        assert((a + seq![sep] + b).last() == sep);
        assert(b =~= Seq::<char>::empty());
    } else {
        lemma_split_after_sep(a, b.drop_last(), sep);
        assert((a + seq![sep] + b).drop_last() =~= a + seq![sep] + b.drop_last());
        assert((a + seq![sep] + b).last() == b.last());
        assert(b.last() == b[b.len() - 1]);
        assert(b.last() != sep);
        assert(b.drop_last().push(b.last()) =~= b);
        assert(split_on(a, sep).push(b.drop_last()).update(
            split_on(a, sep).len() as int,
            b.drop_last().push(b.last()),
        ) =~= split_on(a, sep).push(b));
    }
}

proof fn lemma_index_of_absent(a: Seq<char>, c: char)
    requires
        forall|k: int| 0 <= k < a.len() ==> a[k] != c,
    ensures
        index_of(a, c) == -1,
    decreases a.len(),
{
    if a.len() > 0 {
        lemma_index_of_absent(a.drop_last(), c);
    }
}

proof fn lemma_index_of_after(a: Seq<char>, b: Seq<char>, c: char)
    requires
        forall|k: int| 0 <= k < a.len() ==> a[k] != c,
    ensures
        index_of(a + seq![c] + b, c) == a.len(),
    decreases b.len(),
{
    if b.len() == 0 {
        lemma_index_of_absent(a, c);
        assert((a + seq![c] + b).drop_last() =~= a);
    } else {
        lemma_index_of_after(a, b.drop_last(), c);
        assert((a + seq![c] + b).drop_last() =~= a + seq![c] + b.drop_last());
    }
}

proof fn lemma_field_splits(p: (Seq<char>, Seq<char>))
    requires
        plain_component(form_component_of(p.0)),
        plain_component(form_component_of(p.1)),
    ensures
        split_once(form_field(p), '=') == Some((form_component_of(p.0), form_component_of(p.1))),
        forall|k: int| 0 <= k < form_field(p).len() ==> form_field(p)[k] != '&',
{
    let a = form_component_of(p.0);
    let b = form_component_of(p.1);
    lemma_index_of_after(a, b, '=');
    let f = form_field(p);
    assert(f.subrange(0, a.len() as int) =~= a);
    assert(f.subrange(a.len() as int + 1, f.len() as int) =~= b);
    assert forall|k: int| 0 <= k < f.len() implies f[k] != '&' by {
        if k < a.len() {
            assert(f[k] == a[k]);
        } else if k > a.len() {
            assert(f[k] == b[k - a.len() - 1]);
        }
    }
}

proof fn lemma_body_splits(ps: Seq<(Seq<char>, Seq<char>)>)
    requires
        ps.len() > 0,
        forall|i: int|
            0 <= i < ps.len() ==> plain_component(form_component_of(#[trigger] ps[i].0))
                && plain_component(form_component_of(ps[i].1)),
    ensures
        split_on(form_body(ps), '&') == ps.map_values(|p: (Seq<char>, Seq<char>)| form_field(p)),
    decreases ps.len(),
{
    let fields = ps.map_values(|p: (Seq<char>, Seq<char>)| form_field(p));
    lemma_field_splits(ps.last());
    if ps.len() == 1 {
        lemma_split_no_sep(form_field(ps[0]), '&');
        assert(fields =~= seq![form_field(ps[0])]);
    } else {
        let init = ps.drop_last();
        assert forall|i: int| 0 <= i < init.len() implies plain_component(
            form_component_of(#[trigger] init[i].0),
        ) && plain_component(form_component_of(init[i].1)) by {
            assert(init[i] == ps[i]);
        }
        lemma_body_splits(init);
        lemma_split_after_sep(form_body(init), form_field(ps.last()), '&');
        assert(fields =~= init.map_values(|p: (Seq<char>, Seq<char>)| form_field(p)).push(
            form_field(ps.last()),
        ));
    }
}

/// A form body splits back, at its `&` and then at the first `=` of each
/// field, into the encoded keys and values of the pairs it encodes, in the
/// order of the pairs.
pub proof fn lemma_form_body_round_trip(ps: Seq<(Seq<char>, Seq<char>)>, body: Seq<char>)
    requires
        ps.len() > 0,
        encodes(ps, body),
    ensures
        form_fields(body) == encoded_pairs(ps),
{
    lemma_body_splits(ps);
    let fields = ps.map_values(|p: (Seq<char>, Seq<char>)| form_field(p));
    assert forall|i: int| 0 <= i < ps.len() implies #[trigger] split_once(fields[i], '=')
        == encoded_pairs(ps)[i] by {
        lemma_field_splits(ps[i]);
    }
    assert(form_fields(body) =~= encoded_pairs(ps));
}

} // verus!
