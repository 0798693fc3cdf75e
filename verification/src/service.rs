//! The decisions behind a service's generated routes: which parameters a
//! route path names, what each argument of a handler method stands for, and
//! reading a path parameter out of a request path.

use crate::request::RequestParamKind;
use crate::text::{
    chars_of, decimal, find, find_in, lemma_find, push_decimal, push_str, range_eq, split, string_from,
};
use crate::types::error::RequestError;
use vstd::prelude::*;
use vstd::string::*;

verus! {

// ---------- splitting a path ----------

/// How `split(s, '/')` unfolds at its first piece.
proof fn lemma_split_step(s: Seq<char>)
    ensures
        find(s, '/') < s.len() ==> split(s, '/') == seq![s.subrange(0, find(s, '/') as int)] + split(
            s.subrange(find(s, '/') + 1int, s.len() as int),
            '/',
        ),
        find(s, '/') >= s.len() ==> split(s, '/') == seq![s],
{
    lemma_find(s, '/');
}

/// The piece of `v[p..n]` up to the first `/`, and where the rest starts.
fn next_piece(v: &Vec<char>, p: usize) -> (r: (usize, bool))
    requires
        p <= v@.len(),
    ensures
        ({
            let s = v@.subrange(p as int, v@.len() as int);
            let (e, more) = r;
            &&& p <= e <= v@.len()
            &&& more == (e < v@.len())
            &&& more ==> split(s, '/') == seq![v@.subrange(p as int, e as int)] + split(
                v@.subrange(e + 1, v@.len() as int),
                '/',
            )
            &&& !more ==> split(s, '/') == seq![v@.subrange(p as int, e as int)]
        }),
{
    let n = v.len();
    let e = find_in(v, p, n, '/');
    proof {
        let s = v@.subrange(p as int, n as int);
        lemma_split_step(s);
        assert(s.subrange(0, e - p) =~= v@.subrange(p as int, e as int));
        if e < n {
            assert(s.subrange(e - p + 1, s.len() as int) =~= v@.subrange(e + 1, n as int));
        } else {
            assert(s =~= v@.subrange(p as int, e as int));
        }
    }
    (e, e < n)
}

// ---------- path parameters ----------

/// The named parameters among path pieces, the first of which is at position
/// `base`: each piece that starts with `:` names the parameter after the `:`,
/// at its position.
pub open spec fn named_params_from(ps: Seq<Seq<char>>, base: int) -> Seq<(int, Seq<char>)>
    decreases ps.len(),
{
    if ps.len() == 0 {
        Seq::empty()
    } else {
        let rest = named_params_from(ps.drop_first(), base + 1);
        if ps[0].len() > 0 && ps[0][0] == ':' {
            seq![(base, ps[0].drop_first())] + rest
        } else {
            rest
        }
    }
}

/// The named parameters of a route path (e.g. `/users/:id` names `id` at
/// position 2), by position among the pieces between its `/`s.
pub open spec fn named_path_params(path: Seq<char>) -> Seq<(int, Seq<char>)> {
    named_params_from(split(path, '/'), 0)
}

/// Positions and names, as numbers and texts.
pub open spec fn params_view(ps: Seq<(usize, String)>) -> Seq<(int, Seq<char>)> {
    ps.map_values(|p: (usize, String)| (p.0 as int, p.1@))
}

/// The named parameters of a route path (see [`named_path_params`]).
pub fn path_params(path: &str) -> (r: Vec<(usize, String)>)
    ensures
        params_view(r@) == named_path_params(path@),
{
    let v = chars_of(path);
    let n = v.len();
    let mut out: Vec<(usize, String)> = Vec::new();
    let mut p: usize = 0;
    let mut pos: usize = 0;
    assert(v@.subrange(0, n as int) =~= v@);
    loop
        invariant
            n == v@.len(),
            v@ == path@,
            p <= n,
            pos <= p,
            params_view(out@) + named_params_from(split(v@.subrange(p as int, n as int), '/'), pos as int)
                == named_path_params(path@),
        decreases n - p,
    {
        let (e, more) = next_piece(&v, p);
        let ghost piece = v@.subrange(p as int, e as int);
        let ghost rest = if more {
            split(v@.subrange(e + 1, n as int), '/')
        } else {
            Seq::<Seq<char>>::empty()
        };
        let ghost before = params_view(out@);
        proof {
            let ps = split(v@.subrange(p as int, n as int), '/');
            assert(ps == seq![piece] + rest);
            assert(ps.drop_first() =~= rest);
            assert(ps[0] == piece);
        }
        if e > p && v[p] == ':' {
            let name = string_from(&v, p + 1, e);
            out.push((pos, name));
            proof {
                assert(piece.drop_first() =~= name@);
                assert(params_view(out@) =~= before.push((pos as int, name@)));
                assert(before.push((pos as int, name@)) + named_params_from(rest, pos + 1) =~= before
                    + (seq![(pos as int, piece.drop_first())] + named_params_from(rest, pos + 1)));
            }
        }
        if !more {
            proof {
                assert(named_params_from(rest, pos + 1) =~= Seq::<(int, Seq<char>)>::empty());
                assert(params_view(out@) + Seq::<(int, Seq<char>)>::empty() =~= params_view(out@));
            }
            return out;
        }
        p = e + 1;
        pos = pos + 1;
    }
}

/// Each named parameter comes from the piece at its position: that piece is
/// `:` followed by the name.
proof fn lemma_named_params_from(ps: Seq<Seq<char>>, base: int)
    ensures
        forall|j: int|
            0 <= j < named_params_from(ps, base).len() ==> {
                let (i, n) = #[trigger] named_params_from(ps, base)[j];
                base <= i < base + ps.len() && ps[i - base] == seq![':'] + n
            },
    decreases ps.len(),
{
    if ps.len() > 0 {
        lemma_named_params_from(ps.drop_first(), base + 1);
        let rest = named_params_from(ps.drop_first(), base + 1);
        let all = named_params_from(ps, base);
        assert forall|j: int| 0 <= j < all.len() implies {
            let (i, n) = #[trigger] all[j];
            base <= i < base + ps.len() && ps[i - base] == seq![':'] + n
        } by {
            if ps[0].len() > 0 && ps[0][0] == ':' {
                if j == 0 {
                    assert(ps[0] =~= seq![':'] + ps[0].drop_first());
                } else {
                    assert(all[j] == rest[j - 1]);
                    let (i, n) = rest[j - 1];
                    assert(ps.drop_first()[i - (base + 1)] == ps[i - base]);
                }
            } else {
                assert(all[j] == rest[j]);
                let (i, n) = rest[j];
                assert(ps.drop_first()[i - (base + 1)] == ps[i - base]);
            }
        }
    }
}

/// A parameter that a route path names is found again at its position in
/// that same path: the piece there is `:` followed by its name.
pub proof fn lemma_param_piece_in_route_path(path: Seq<char>, j: int)
    requires
        0 <= j < named_path_params(path).len(),
    ensures
        path_piece(path, named_path_params(path)[j].0) == Some(
            seq![':'] + named_path_params(path)[j].1,
        ),
{
    lemma_named_params_from(split(path, '/'), 0);
    let (i, n) = named_path_params(path)[j];
    assert(0 <= i < split(path, '/').len());
}

/// The piece of a request path at a position among the pieces between its
/// `/`s, if there is one.
pub open spec fn path_piece(path: Seq<char>, position: int) -> Option<Seq<char>> {
    if 0 <= position < split(path, '/').len() {
        Some(split(path, '/')[position])
    } else {
        None
    }
}

/// The piece of `path` at `position` (see [`path_piece`]).
pub fn path_piece_at(path: &str, position: usize) -> (r: Option<String>)
    ensures
        match path_piece(path@, position as int) {
            Some(t) => r matches Some(s) && s@ == t,
            None => r is None,
        },
{
    let v = chars_of(path);
    let n = v.len();
    let mut p: usize = 0;
    let mut i: usize = 0;
    assert(v@.subrange(0, n as int) =~= v@);
    let ghost all = split(path@, '/');
    loop
        invariant
            n == v@.len(),
            v@ == path@,
            all == split(path@, '/'),
            p <= n,
            i <= position,
            i <= p,
            all.len() == i + split(v@.subrange(p as int, n as int), '/').len(),
            forall|k: int| 0 <= k < split(v@.subrange(p as int, n as int), '/').len()
                ==> all[i + k] == #[trigger] split(v@.subrange(p as int, n as int), '/')[k],
        decreases n - p,
    {
        let (e, more) = next_piece(&v, p);
        let ghost ps = split(v@.subrange(p as int, n as int), '/');
        if i == position {
            assert(ps[0] == v@.subrange(p as int, e as int));
            return Some(string_from(&v, p, e));
        }
        if !more {
            assert(ps.len() == 1);
            return None;
        }
        proof {
            let rest = split(v@.subrange(e + 1, n as int), '/');
            assert forall|k: int| 0 <= k < rest.len() implies all[i + 1 + k] == #[trigger] rest[k] by {
                assert(ps[k + 1] == rest[k]);
            }
        }
        p = e + 1;
        i = i + 1;
    }
}

/// The message of the `Invalid` error for a path parameter missing from the
/// request path.
pub open spec fn missing_param_message(position: nat) -> Seq<char> {
    "No path parameter found at position "@ + decimal(position)
}

/// The value of the path parameter `name` at `position` of a request path,
/// or an `Invalid` path-parameter error that says no parameter is there.
pub fn path_param_value(path: &str, name: &str, position: usize) -> (r: Result<String, RequestError>)
    ensures
        match path_piece(path@, position as int) {
            Some(t) => r matches Ok(s) && s@ == t,
            None => r matches Err(
                RequestError::Invalid { name: n, kind, raw_value, conversion_type, message },
            ) && n@ == name@ && kind == RequestParamKind::Path && raw_value is None
                && conversion_type is None && message@ == missing_param_message(position as nat),
        },
{
    match path_piece_at(path, position) {
        Some(s) => Ok(s),
        None => {
            let mut message = String::new();
            push_str(&mut message, "No path parameter found at position ");
            push_decimal(&mut message, position as u64);
            Err(
                RequestError::Invalid {
                    name: name.to_owned(),
                    kind: RequestParamKind::Path,
                    raw_value: None,
                    conversion_type: None,
                    message,
                },
            )
        },
    }
}

// ---------- handler arguments ----------

/// One argument of a handler method, as the service macro sees it.
#[derive(Debug)]
pub enum HandlerArg {
    /// `self`, `&self` or `&mut self`.
    Receiver,
    /// A typed argument: its name, when its pattern is a plain identifier, and
    /// the names of its attributes (e.g. `body`, `path`).
    Typed { ident: Option<String>, attributes: Vec<String> },
}

/// What an argument of a handler method stands for.
#[derive(Debug)]
pub enum HandlerInput {
    /// The receiver.
    Receiver,
    /// The request body, read into the argument `name`.
    Body { name: String, fn_position: usize },
    /// The path parameter `name`, at `path_position` among the pieces of the
    /// request path.
    PathParam { name: String, path_position: usize, fn_position: usize },
}

/// Why an argument of a handler method is refused.
#[derive(Debug, Clone, Copy, PartialEq, Eq, Structural)]
pub enum HandlerInputError {
    /// It is neither the receiver, the body nor a path parameter.
    Unsupported { fn_position: usize },
    /// It is marked as a path parameter that the route path does not name.
    UnknownPathParam { fn_position: usize },
}

/// An argument, as texts.
pub enum ArgShape {
    Receiver,
    Typed(Option<Seq<char>>, Seq<Seq<char>>),
}

impl View for HandlerArg {
    type V = ArgShape;

    open spec fn view(&self) -> ArgShape {
        match self {
            HandlerArg::Receiver => ArgShape::Receiver,
            HandlerArg::Typed { ident, attributes } => ArgShape::Typed(
                match ident {
                    Some(n) => Some(n@),
                    None => None,
                },
                attributes@.map_values(|a: String| a@),
            ),
        }
    }
}

/// What an argument stands for, as texts.
pub enum InputShape {
    Receiver,
    Body(Seq<char>, int),
    PathParam(Seq<char>, int, int),
}

impl View for HandlerInput {
    type V = InputShape;

    open spec fn view(&self) -> InputShape {
        match self {
            HandlerInput::Receiver => InputShape::Receiver,
            HandlerInput::Body { name, fn_position } => InputShape::Body(name@, *fn_position as int),
            HandlerInput::PathParam { name, path_position, fn_position } => InputShape::PathParam(
                name@,
                *path_position as int,
                *fn_position as int,
            ),
        }
    }
}

/// A typed argument is the body if it is named `body` or marked `body`.
pub open spec fn is_body(ident: Option<Seq<char>>, attributes: Seq<Seq<char>>) -> bool {
    ident matches Some(n) && (attributes.contains("body"@) || n == "body"@)
}

/// A typed argument is a path parameter if it is marked `path` or the route
/// path names a parameter like it.
pub open spec fn is_path_param(
    ident: Option<Seq<char>>,
    attributes: Seq<Seq<char>>,
    params: Seq<(int, Seq<char>)>,
) -> bool {
    ident matches Some(n) && (attributes.contains("path"@) || exists|i: int|
        0 <= i < params.len() && (#[trigger] params[i]).1 == n)
}

/// The position of the first parameter named `name`, if any.
pub open spec fn param_position(params: Seq<(int, Seq<char>)>, name: Seq<char>) -> Option<int>
    decreases params.len(),
{
    if params.len() == 0 {
        None
    } else if params[0].1 == name {
        Some(params[0].0)
    } else {
        param_position(params.drop_first(), name)
    }
}

/// What the argument at `fn_position` stands for, given the parameters the
/// route path names: the receiver; else the body; else a path parameter, at
/// the position of the first parameter of its name; else it is refused.
pub open spec fn input_of(arg: ArgShape, fn_position: int, params: Seq<(int, Seq<char>)>) -> Result<
    InputShape,
    HandlerInputError,
> {
    match arg {
        ArgShape::Receiver => Ok(InputShape::Receiver),
        ArgShape::Typed(ident, attributes) => if is_body(ident, attributes) {
            Ok(InputShape::Body(ident->0, fn_position))
        } else if is_path_param(ident, attributes, params) {
            match param_position(params, ident->0) {
                Some(p) => Ok(InputShape::PathParam(ident->0, p, fn_position)),
                None => Err(HandlerInputError::UnknownPathParam { fn_position: fn_position as usize }),
            }
        } else {
            Err(HandlerInputError::Unsupported { fn_position: fn_position as usize })
        },
    }
}

/// Whether two texts are equal.
fn same_text(a: &str, b: &str) -> (r: bool)
    ensures
        r == (a@ == b@),
{
    let v = chars_of(a);
    let n = v.len();
    assert(v@.subrange(0, n as int) =~= a@);
    range_eq(&v, 0, n, b)
}

/// Whether one of the texts is `t`.
fn contains_text(v: &Vec<String>, t: &str) -> (r: bool)
    ensures
        r == v@.map_values(|a: String| a@).contains(t@),
{
    let ghost w = v@.map_values(|a: String| a@);
    let mut i: usize = 0;
    while i < v.len()
        invariant
            w == v@.map_values(|a: String| a@),
            i <= v@.len(),
            forall|j: int| 0 <= j < i ==> w[j] != t@,
        decreases v@.len() - i,
    {
        if same_text(v[i].as_str(), t) {
            assert(w[i as int] == t@);
            return true;
        }
        i = i + 1;
    }
    false
}

/// The position of the first parameter named `name`, if any.
fn find_param(params: &Vec<(usize, String)>, name: &str) -> (r: Option<usize>)
    ensures
        match param_position(params_view(params@), name@) {
            Some(p) => r matches Some(q) && q == p,
            None => r is None,
        },
{
    let ghost all = params_view(params@);
    let mut i: usize = 0;
    assert(all.subrange(0, all.len() as int) =~= all);
    while i < params.len()
        invariant
            all == params_view(params@),
            i <= params@.len(),
            param_position(all, name@) == param_position(all.subrange(i as int, all.len() as int), name@),
        decreases params@.len() - i,
    {
        let ghost rest = all.subrange(i as int, all.len() as int);
        assert(rest.drop_first() =~= all.subrange(i + 1, all.len() as int));
        if same_text(params[i].1.as_str(), name) {
            return Some(params[i].0);
        }
        i = i + 1;
    }
    None
}

/// Whether some parameter is named `name`.
fn names_param(params: &Vec<(usize, String)>, name: &str) -> (r: bool)
    ensures
        r == exists|i: int|
            0 <= i < params_view(params@).len() && (#[trigger] params_view(params@)[i]).1 == name@,
{
    let ghost all = params_view(params@);
    let mut i: usize = 0;
    while i < params.len()
        invariant
            all == params_view(params@),
            i <= params@.len(),
            forall|j: int| 0 <= j < i ==> (#[trigger] all[j]).1 != name@,
        decreases params@.len() - i,
    {
        if same_text(params[i].1.as_str(), name) {
            assert(all[i as int].1 == name@);
            return true;
        }
        i = i + 1;
    }
    false
}

/// Whether a typed argument is the body (see [`is_body`]).
pub fn is_body_arg(ident: &Option<String>, attributes: &Vec<String>) -> (b: bool)
    ensures
        b == is_body(
            match ident {
                Some(n) => Some(n@),
                None => None,
            },
            attributes@.map_values(|a: String| a@),
        ),
{
    match ident {
        Some(n) => contains_text(attributes, "body") || same_text(n.as_str(), "body"),
        None => false,
    }
}

/// Whether a typed argument is a path parameter (see [`is_path_param`]).
pub fn is_path_param_arg(ident: &Option<String>, attributes: &Vec<String>, params: &Vec<(usize, String)>) -> (b: bool)
    ensures
        b == is_path_param(
            match ident {
                Some(n) => Some(n@),
                None => None,
            },
            attributes@.map_values(|a: String| a@),
            params_view(params@),
        ),
{
    match ident {
        Some(n) => contains_text(attributes, "path") || names_param(params, n.as_str()),
        None => false,
    }
}

/// What the argument at `fn_position` stands for (see [`input_of`]).
pub fn handler_input(arg: &HandlerArg, fn_position: usize, params: &Vec<(usize, String)>) -> (r: Result<
    HandlerInput,
    HandlerInputError,
>)
    ensures
        match input_of(arg@, fn_position as int, params_view(params@)) {
            Ok(shape) => r matches Ok(i) && i@ == shape,
            Err(e) => r == Err::<HandlerInput, HandlerInputError>(e),
        },
{
    match arg {
        HandlerArg::Receiver => Ok(HandlerInput::Receiver),
        HandlerArg::Typed { ident, attributes } => {
            if is_body_arg(ident, attributes) {
                return Ok(HandlerInput::Body { name: ident.as_ref().unwrap().clone(), fn_position });
            }
            if is_path_param_arg(ident, attributes, params) {
                let name = ident.as_ref().unwrap();
                match find_param(params, name.as_str()) {
                    Some(p) => Ok(
                        HandlerInput::PathParam { name: name.clone(), path_position: p, fn_position },
                    ),
                    None => Err(HandlerInputError::UnknownPathParam { fn_position }),
                }
            } else {
                Err(HandlerInputError::Unsupported { fn_position })
            }
        },
    }
}

impl HandlerInput {
    /// The name the argument is known by in the handler call: `self` for the
    /// receiver.
    pub fn name(&self) -> (n: String)
        ensures
            n@ == match self@ {
                InputShape::Receiver => "self"@,
                InputShape::Body(name, _) => name,
                InputShape::PathParam(name, _, _) => name,
            },
    {
        match self {
            HandlerInput::Receiver => "self".to_owned(),
            HandlerInput::Body { name, .. } => name.clone(),
            HandlerInput::PathParam { name, .. } => name.clone(),
        }
    }
}

/// What each argument of a handler method stands for, given its route path;
/// the first refused argument is the error.
pub fn handler_inputs(args: &Vec<HandlerArg>, path: &str) -> (r: Result<
    Vec<HandlerInput>,
    HandlerInputError,
>)
    ensures
        ({
            let params = named_path_params(path@);
            &&& r matches Ok(v) ==> v@.len() == args@.len() && forall|i: int|
                0 <= i < args@.len() ==> input_of(args@[i]@, i, params) == Ok::<
                    InputShape,
                    HandlerInputError,
                >((#[trigger] v@[i])@)
            &&& r matches Err(e) ==> exists|i: int|
                0 <= i < args@.len() && input_of(args@[i]@, i, params) == Err::<
                    InputShape,
                    HandlerInputError,
                >(e) && forall|j: int| 0 <= j < i ==> (#[trigger] input_of(args@[j]@, j, params)) is Ok
            &&& (forall|i: int| 0 <= i < args@.len() ==> (#[trigger] input_of(args@[i]@, i, params)) is Ok)
                ==> r is Ok
        }),
{
    let params = path_params(path);
    let ghost pv = named_path_params(path@);
    let mut out: Vec<HandlerInput> = Vec::new();
    let mut i: usize = 0;
    while i < args.len()
        invariant
            params_view(params@) == pv,
            pv == named_path_params(path@),
            i <= args@.len(),
            out@.len() == i,
            forall|j: int| 0 <= j < i ==> input_of(args@[j]@, j, pv) == Ok::<InputShape, HandlerInputError>(
                (#[trigger] out@[j])@,
            ),
        decreases args@.len() - i,
    {
        match handler_input(&args[i], i, &params) {
            Ok(x) => out.push(x),
            Err(e) => {
                assert forall|j: int| 0 <= j < i implies (#[trigger] input_of(args@[j]@, j, pv)) is Ok by {
                    assert(input_of(args@[j]@, j, pv) == Ok::<InputShape, HandlerInputError>(out@[j]@));
                }
                return Err(e);
            },
        }
        i = i + 1;
    }
    Ok(out)
}

} // verus!
