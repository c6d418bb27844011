//! Shader composition: the scene's distance function is written into a
//! template in place of a placeholder token.
//!
//! A template must hold the placeholder exactly once. Composition finds that
//! place, and answers with an error where there is none or more than one, so
//! that a template is never handed on unchanged.

use vstd::prelude::*;
use vstd::string::*;

verus! {

/// The token that a shader template holds where the scene's distance function belongs.
pub const PLACEHOLDER: &'static str = "[SDF_FUNCTION]";

/// The distance function of the built-in scene: unit spheres repeated every ten units.
pub const DEFAULT_SCENE: &'static str =
    "float sdf(vec3 p) { return sphereSDF(arrayOp(p, vec3(10.)), 1.0); }";

/// Why a template cannot be composed.
#[derive(Clone, Copy, Debug, PartialEq, Eq, Structural)]
pub enum ComposeError {
    /// The template does not hold the placeholder.
    MissingPlaceholder,
    /// The template holds the placeholder at more than one place.
    RepeatedPlaceholder,
}

/// What an error says to the user.
pub open spec fn message_of(error: ComposeError) -> Seq<char> {
    match error {
        ComposeError::MissingPlaceholder =>
            "the shader template does not hold the placeholder [SDF_FUNCTION]"@,
        ComposeError::RepeatedPlaceholder =>
            "the shader template holds the placeholder [SDF_FUNCTION] more than once"@,
    }
}

impl ComposeError {
    /// The error in words, for a diagnostic.
    pub fn message(&self) -> (text: String)
        ensures
            text@ == message_of(*self),
    {
        match self {
            ComposeError::MissingPlaceholder => String::from_str(
                "the shader template does not hold the placeholder [SDF_FUNCTION]",
            ),
            ComposeError::RepeatedPlaceholder => String::from_str(
                "the shader template holds the placeholder [SDF_FUNCTION] more than once",
            ),
        }
    }
}

/// `token` stands in `text` at index `at`.
pub open spec fn occurs_at(text: Seq<char>, token: Seq<char>, at: int) -> bool {
    &&& 0 <= at
    &&& at + token.len() <= text.len()
    &&& text.subrange(at, at + token.len()) == token
}

/// `token` stands somewhere in `text`.
pub open spec fn occurs(text: Seq<char>, token: Seq<char>) -> bool {
    exists|at: int| occurs_at(text, token, at)
}

/// `token` stands in `text` at index `at` and nowhere else.
pub open spec fn sole_occurrence(text: Seq<char>, token: Seq<char>, at: int) -> bool {
    &&& occurs_at(text, token, at)
    &&& forall|other: int| occurs_at(text, token, other) ==> other == at
}

/// `token` stands in `text` at exactly one place.
pub open spec fn occurs_once(text: Seq<char>, token: Seq<char>) -> bool {
    exists|at: int| sole_occurrence(text, token, at)
}

/// The one place of `token` in `text`; meaningful where `occurs_once` holds.
pub open spec fn place_of(text: Seq<char>, token: Seq<char>) -> int {
    choose|at: int| sole_occurrence(text, token, at)
}

/// `text` with the `removed` characters from index `at` on replaced by `insert`.
pub open spec fn spliced(text: Seq<char>, at: int, removed: nat, insert: Seq<char>) -> Seq<char> {
    text.subrange(0, at) + insert + text.subrange(at + removed, text.len() as int)
}

/// Where the placeholder stands in a template, or why the template is refused.
pub open spec fn located(template: Seq<char>) -> Result<int, ComposeError> {
    if !occurs(template, PLACEHOLDER@) {
        Err(ComposeError::MissingPlaceholder)
    } else if !occurs_once(template, PLACEHOLDER@) {
        Err(ComposeError::RepeatedPlaceholder)
    } else {
        Ok(place_of(template, PLACEHOLDER@))
    }
}

/// The shader source that a template and a distance function compose to.
pub open spec fn composed(template: Seq<char>, sdf_expression: Seq<char>) -> Result<
    Seq<char>,
    ComposeError,
> {
    match located(template) {
        Ok(at) => Ok(spliced(template, at, PLACEHOLDER@.len(), sdf_expression)),
        Err(e) => Err(e),
    }
}

/// A result of composing: the error that `composed` gives, or a string that
/// holds the source that it gives.
pub open spec fn compose_result(
    template: Seq<char>,
    sdf_expression: Seq<char>,
    result: Result<String, ComposeError>,
) -> bool {
    match result {
        Ok(source) => composed(template, sdf_expression) == Ok::<Seq<char>, ComposeError>(source@),
        Err(e) => composed(template, sdf_expression) == Err::<Seq<char>, ComposeError>(e),
    }
}

/// Composing put a placeholder into the source: one stands there across the
/// place where the expression was written, overlapping the expression or,
/// where the expression is empty, joining the characters on both sides of it.
pub open spec fn brings_placeholder(template: Seq<char>, sdf_expression: Seq<char>) -> bool {
    let at = place_of(template, PLACEHOLDER@);
    let source = spliced(template, at, PLACEHOLDER@.len(), sdf_expression);
    exists|found: int|
        at - PLACEHOLDER@.len() < found < at + sdf_expression.len() && #[trigger] occurs_at(
            source,
            PLACEHOLDER@,
            found,
        )
}

/// No character of `text` is a square bracket.
pub open spec fn bracket_free(text: Seq<char>) -> bool {
    forall|i: int| 0 <= i < text.len() ==> text[i] != '[' && text[i] != ']'
}

/// The characters of `text`, in order.
fn chars_of(text: &str) -> (chars: Vec<char>)
    ensures
        chars@ == text@,
{
    let mut chars: Vec<char> = Vec::new();
    for c in it: text.chars()
        invariant
            it.seq() == text@,
            chars@ == it.seq().take(it.index()),
    {
        chars.push(c);
    }
    chars
}

/// Whether `token` stands in `text` at index `at`.
fn matches_at(text: &Vec<char>, token: &Vec<char>, at: usize) -> (found: bool)
    requires
        at + token.len() <= text.len(),
    ensures
        found == occurs_at(text@, token@, at as int),
{
    let mut i: usize = 0;
    while i < token.len()
        invariant
            at + token.len() <= text.len(),
            i <= token.len(),
            forall|k: int| 0 <= k < i ==> text@[at + k] == token@[k],
        decreases token.len() - i,
    {
        if text[at + i] != token[i] {
            proof {
                let window = text@.subrange(at as int, at + token.len());
                assert(window[i as int] != token@[i as int]);
            }
            return false;
        }
        i = i + 1;
    }
    assert(text@.subrange(at as int, at + token.len()) =~= token@);
    true
}

/// The first index from `from` on at which `token` stands in `text`.
fn find_from(text: &Vec<char>, token: &Vec<char>, from: usize) -> (found: Option<usize>)
    ensures
        match found {
            Some(at) => {
                &&& from <= at
                &&& occurs_at(text@, token@, at as int)
                &&& forall|j: int| from <= j < at ==> !occurs_at(text@, token@, j)
            },
            None => forall|j: int| from <= j ==> !occurs_at(text@, token@, j),
        },
{
    if token.len() > text.len() {
        return None;
    }
    let last: usize = text.len() - token.len();
    let mut at: usize = from;
    while at <= last
        invariant
            last == text.len() - token.len(),
            from <= at,
            forall|j: int| from <= j < at ==> !occurs_at(text@, token@, j),
        decreases last + 1 - at,
    {
        if matches_at(text, token, at) {
            return Some(at);
        }
        proof {
            if token.len() == 0 {
                assert(text@.subrange(at as int, at as int) =~= token@);
            }
        }
        at = at + 1;
    }
    None
}

/// Finds the placeholder in a template and checks that it stands there once.
///
/// Answers with the index, counted in characters, at which the placeholder
/// begins; with `MissingPlaceholder` where the template holds none, and with
/// `RepeatedPlaceholder` where it holds more than one.
pub fn locate_placeholder(template: &str) -> (result: Result<usize, ComposeError>)
    ensures
        match result {
            Ok(at) => located(template@) == Ok::<int, ComposeError>(at as int),
            Err(e) => located(template@) == Err::<int, ComposeError>(e),
        },
{
    let text = chars_of(template);
    let token = chars_of(PLACEHOLDER);
    match find_from(&text, &token, 0) {
        None => {
            assert(!occurs(template@, PLACEHOLDER@));
            Err(ComposeError::MissingPlaceholder)
        },
        Some(first) => {
            proof {
                lemma_placeholder_shape();
            }
            assert(token@.len() == 14);
            assert(first < text.len());
            match find_from(&text, &token, first + 1) {
                Some(second) => {
                    assert(occurs(template@, PLACEHOLDER@));
                    assert forall|at: int| !sole_occurrence(template@, PLACEHOLDER@, at) by {
                        if at == first as int {
                            assert(occurs_at(template@, PLACEHOLDER@, second as int));
                        } else {
                            assert(occurs_at(template@, PLACEHOLDER@, first as int));
                        }
                    }
                    Err(ComposeError::RepeatedPlaceholder)
                },
                None => {
                    proof {
                        lemma_sole_occurrence_is_place(template@, PLACEHOLDER@, first as int);
                    }
                    Ok(first)
                },
            }
        },
    }
}

/// Writes a distance function into a template, in place of the placeholder.
///
/// The template is checked first: where it does not hold the placeholder
/// exactly once, nothing is composed and the error says which of the two it is.
/// The expression itself is not examined.
pub fn compose(template: &str, sdf_expression: &str) -> (result: Result<String, ComposeError>)
    ensures
        compose_result(template@, sdf_expression@, result),
        result matches Ok(source) ==> occurs(source@, sdf_expression@),
{
    match locate_placeholder(template) {
        Err(e) => Err(e),
        Ok(at) => {
            proof {
                lemma_placeholder_shape();
                lemma_composed_holds_expression(template@, sdf_expression@);
            }
            let width = PLACEHOLDER.unicode_len();
            let length = template.unicode_len();
            let mut source = String::from_str(template.substring_char(0, at));
            source.append(sdf_expression);
            source.append(template.substring_char(at + width, length));
            Ok(source)
        },
    }
}

/// Composes the shader of the built-in scene from a template.
///
/// As `compose` with `DEFAULT_SCENE`; the source that comes out holds the
/// scene's distance function and no placeholder.
pub fn gen_scene_shader(template: &str) -> (result: Result<String, ComposeError>)
    ensures
        compose_result(template@, DEFAULT_SCENE@, result),
        result matches Ok(source) ==> occurs(source@, DEFAULT_SCENE@) && !occurs(
            source@,
            PLACEHOLDER@,
        ),
{
    let result = compose(template, DEFAULT_SCENE);
    proof {
        if result is Ok {
            lemma_placeholder_shape();
            lemma_default_scene_shape();
            lemma_bracket_free_expression_leaves_no_placeholder(template@, DEFAULT_SCENE@);
        }
    }
    result
}

/// The placeholder is fourteen characters long, opens with `[`, and closes with `]`.
pub proof fn lemma_placeholder_shape()
    ensures
        PLACEHOLDER@.len() == 14,
        PLACEHOLDER@[0] == '[',
        PLACEHOLDER@[13] == ']',
{
    reveal_strlit("[SDF_FUNCTION]");
}

/// The built-in scene's distance function is longer than the placeholder and
/// holds no square bracket.
pub proof fn lemma_default_scene_shape()
    ensures
        DEFAULT_SCENE@.len() == 67,
        bracket_free(DEFAULT_SCENE@),
{
    reveal_strlit("float sdf(vec3 p) { return sphereSDF(arrayOp(p, vec3(10.)), 1.0); }");
}

/// A place at which a token stands alone is the token's place.
pub proof fn lemma_sole_occurrence_is_place(text: Seq<char>, token: Seq<char>, at: int)
    requires
        sole_occurrence(text, token, at),
    ensures
        occurs(text, token),
        occurs_once(text, token),
        place_of(text, token) == at,
{
    let chosen = place_of(text, token);
    assert(sole_occurrence(text, token, chosen));
}

/// Composing writes the expression into the source as it is: it stands there,
/// character for character, where the placeholder stood in the template.
pub proof fn lemma_composed_holds_expression(template: Seq<char>, sdf_expression: Seq<char>)
    requires
        composed(template, sdf_expression) is Ok,
    ensures
        occurs_at(
            composed(template, sdf_expression)->Ok_0,
            sdf_expression,
            place_of(template, PLACEHOLDER@),
        ),
        occurs(composed(template, sdf_expression)->Ok_0, sdf_expression),
{
    let at = place_of(template, PLACEHOLDER@);
    let source = composed(template, sdf_expression)->Ok_0;
    assert(sole_occurrence(template, PLACEHOLDER@, at));
    assert(source.subrange(at, at + sdf_expression.len()) =~= sdf_expression);
}

/// A placeholder in a composed source can only stand where the expression
/// was written: none lies wholly in what was taken over from the template.
pub proof fn lemma_placeholder_only_at_insertion(
    template: Seq<char>,
    sdf_expression: Seq<char>,
    found: int,
)
    requires
        composed(template, sdf_expression) is Ok,
        occurs_at(composed(template, sdf_expression)->Ok_0, PLACEHOLDER@, found),
    ensures
        place_of(template, PLACEHOLDER@) - PLACEHOLDER@.len() < found < place_of(
            template,
            PLACEHOLDER@,
        ) + sdf_expression.len(),
{
    lemma_placeholder_shape();
    let token = PLACEHOLDER@;
    let width = token.len() as int;
    let at = place_of(template, token);
    let source = composed(template, sdf_expression)->Ok_0;
    let grown = sdf_expression.len() - width;
    assert(sole_occurrence(template, token, at));
    if found + width <= at {
        assert(template.subrange(found, found + width) =~= source.subrange(found, found + width));
        assert(occurs_at(template, token, found));
    } else if found >= at + sdf_expression.len() {
        assert(template.subrange(found - grown, found - grown + width) =~= source.subrange(
            found,
            found + width,
        ));
        assert(occurs_at(template, token, found - grown));
    }
}

/// The composed source holds the expression and no placeholder, unless the
/// expression brought one in: by holding it, or by completing one with the
/// characters next to it.
pub proof fn lemma_composed_replaces_placeholder(template: Seq<char>, sdf_expression: Seq<char>)
    requires
        composed(template, sdf_expression) is Ok,
        !brings_placeholder(template, sdf_expression),
    ensures
        occurs(composed(template, sdf_expression)->Ok_0, sdf_expression),
        !occurs(composed(template, sdf_expression)->Ok_0, PLACEHOLDER@),
{
    lemma_composed_holds_expression(template, sdf_expression);
    lemma_composed_placeholder_comes_from_expression(template, sdf_expression);
}

/// The composed source holds a placeholder exactly where the expression
/// brought one in.
pub proof fn lemma_composed_placeholder_comes_from_expression(
    template: Seq<char>,
    sdf_expression: Seq<char>,
)
    requires
        composed(template, sdf_expression) is Ok,
    ensures
        occurs(composed(template, sdf_expression)->Ok_0, PLACEHOLDER@) <==> brings_placeholder(
            template,
            sdf_expression,
        ),
{
    let source = composed(template, sdf_expression)->Ok_0;
    if occurs(source, PLACEHOLDER@) {
        let found = choose|found: int| occurs_at(source, PLACEHOLDER@, found);
        lemma_placeholder_only_at_insertion(template, sdf_expression, found);
    }
}

/// An expression without square brackets, and at least as long as the
/// placeholder less one character, leaves no placeholder in the composed source.
pub proof fn lemma_bracket_free_expression_leaves_no_placeholder(
    template: Seq<char>,
    sdf_expression: Seq<char>,
)
    requires
        composed(template, sdf_expression) is Ok,
        bracket_free(sdf_expression),
        sdf_expression.len() + 1 >= PLACEHOLDER@.len(),
    ensures
        !occurs(composed(template, sdf_expression)->Ok_0, PLACEHOLDER@),
{
    lemma_placeholder_shape();
    let token = PLACEHOLDER@;
    let at = place_of(template, token);
    let source = composed(template, sdf_expression)->Ok_0;
    assert(sole_occurrence(template, token, at));
    assert forall|found: int| !occurs_at(source, token, found) by {
        if occurs_at(source, token, found) {
            lemma_placeholder_only_at_insertion(template, sdf_expression, found);
            let window = source.subrange(found, found + 14);
            if found >= at {
                assert(window[0] == sdf_expression[found - at]);
            } else {
                assert(window[13] == sdf_expression[found + 13 - at]);
            }
        }
    }
}

/// Composing is a function of its two arguments: two results for the same
/// template and expression are the same error, or hold the same source.
pub proof fn lemma_compose_is_deterministic(
    template: Seq<char>,
    sdf_expression: Seq<char>,
    first: Result<String, ComposeError>,
    second: Result<String, ComposeError>,
)
    requires
        compose_result(template, sdf_expression, first),
        compose_result(template, sdf_expression, second),
    ensures
        first is Ok <==> second is Ok,
        first is Ok ==> first->Ok_0@ == second->Ok_0@,
        first is Err ==> first->Err_0 == second->Err_0,
{
}

} // verus!
