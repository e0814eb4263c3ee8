//! Names of tests.
use vstd::prelude::*;

verus! {

/// The text behind an optional string.
pub open spec fn optional_text(text: Option<String>) -> Option<Seq<char>> {
    match text {
        Some(text) => Some(text@),
        None => None,
    }
}

/// The name of a test as one text: `module::function`, with the parametrize id behind it.
pub open spec fn full_name(
    module: Seq<char>,
    function: Seq<char>,
    params: Option<Seq<char>>,
) -> Seq<char> {
    match params {
        Some(params) => module + "::"@ + function + params,
        None => module + "::"@ + function,
    }
}

/// Builds the name of a test as one text.
pub fn full_name_text(module: &str, function: &str, params: Option<&str>) -> (name: String)
    ensures
        name@ == full_name(
            module@,
            function@,
            match params {
                Some(params) => Some(params@),
                None => None,
            },
        ),
{
    let path = module.to_owned().concat("::").concat(function);
    match params {
        Some(params) => path.concat(params),
        None => path,
    }
}

/// The fully qualified name of one test, or of one variant of a parametrized test.
#[derive(Debug)]
pub struct QualifiedTestName {
    pub module_name: String,
    pub function_name: String,
    /// The parametrize id, brackets included.
    pub params: Option<String>,
}

impl View for QualifiedTestName {
    type V = Seq<char>;

    open spec fn view(&self) -> Seq<char> {
        full_name(self.module_name@, self.function_name@, optional_text(self.params))
    }
}

impl QualifiedTestName {
    /// The name as one text.
    pub fn to_text(&self) -> (name: String)
        ensures
            name@ == self@,
    {
        full_name_text(
            self.module_name.as_str(),
            self.function_name.as_str(),
            match &self.params {
                Some(params) => Some(params.as_str()),
                None => None,
            },
        )
    }
}

/// Variants of one parametrized test have different names when their parametrize ids
/// differ; a missing id and an empty one read the same.
pub proof fn law_variants_have_their_own_names(
    module: Seq<char>,
    function: Seq<char>,
    a: Option<Seq<char>>,
    b: Option<Seq<char>>,
)
    ensures
        full_name(module, function, a) == full_name(module, function, b) <==> ({
            let shown_a = match a {
                Some(id) => id,
                None => Seq::empty(),
            };
            let shown_b = match b {
                Some(id) => id,
                None => Seq::empty(),
            };
            shown_a == shown_b
        }),
{
    let path = module + "::"@ + function;
    let shown_a = match a {
        Some(id) => id,
        None => Seq::empty(),
    };
    let shown_b = match b {
        Some(id) => id,
        None => Seq::empty(),
    };
    assert(full_name(module, function, a) =~= path + shown_a);
    assert(full_name(module, function, b) =~= path + shown_b);
    assert((path + shown_a).skip(path.len() as int) =~= shown_a);
    assert((path + shown_b).skip(path.len() as int) =~= shown_b);
}

/// The full name of a test is its module, two colons, its function, and its parametrize id
/// where it has one.
pub proof fn law_names_are_spelled_out(test: QualifiedTestName)
    ensures
        test@ == full_name(test.module_name@, test.function_name@, optional_text(test.params)),
        test.params is None ==> test@ == test.module_name@ + seq![':', ':'] + test.function_name@,
        test.params matches Some(id) ==> test@ == test.module_name@ + seq![':', ':']
            + test.function_name@ + id@,
{
    reveal_strlit("::");
    assert("::"@ =~= seq![':', ':']);
}

/// An optional string says what the string in it says.
pub proof fn law_optional_texts(text: Option<String>)
    ensures
        text is None <==> optional_text(text) is None,
        text matches Some(held) ==> optional_text(text) == Some(held@),
{
}

} // verus!
