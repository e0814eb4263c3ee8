//! The parts that report lines are made of.
use crate::name::{self, QualifiedTestName};
use crate::style::{self, apply, Paint};
use crate::text::{self, space_run};
use vstd::prelude::*;

verus! {

/// The column that labels (`PASS`, `FAIL`, `TRY 2 PASS`, ...) end in.
pub const LABEL_COLUMN_WIDTH: usize = 12;

/// The padding before a label of `len` characters.
pub open spec fn padding(len: nat) -> Seq<char> {
    text::spaces(
        if len <= LABEL_COLUMN_WIDTH {
            (LABEL_COLUMN_WIDTH - len) as nat
        } else {
            0
        },
    )
}

/// The padding before a label of `label_len` characters.
pub fn label_padding(label_len: usize) -> (lead: String)
    ensures
        lead@ == padding(label_len as nat),
{
    if label_len <= LABEL_COLUMN_WIDTH {
        space_run(LABEL_COLUMN_WIDTH - label_len)
    } else {
        space_run(0)
    }
}

/// Labels end in the same column, unless a label alone is wider than it.
pub proof fn law_labels_align(label: Seq<char>)
    ensures
        label.len() <= LABEL_COLUMN_WIDTH ==> (padding(label.len()) + label).len()
            == LABEL_COLUMN_WIDTH,
        label.len() > LABEL_COLUMN_WIDTH ==> padding(label.len()) + label == label,
{
    if label.len() > LABEL_COLUMN_WIDTH {
        assert(padding(label.len()) + label =~= label);
    }
}

/// Which parts of a test path are coloured.
pub struct PathColours {
    pub module: bool,
    pub function: bool,
    pub params: bool,
}

/// A test path in colour: `module::function`, with the parametrize id behind it.
pub open spec fn test_path(
    on: PathColours,
    module: Seq<char>,
    function: Seq<char>,
    params: Option<Seq<char>>,
) -> Seq<char> {
    style::shade(on.module, Paint::Cyan, module) + "::"@ + style::shade(
        on.function,
        Paint::BlueBold,
        function,
    ) + match params {
        Some(params) => style::shade(on.params, Paint::BlueBold, params),
        None => Seq::empty(),
    }
}

/// `out` is the test path, each part coloured or not.
pub open spec fn is_test_path(
    module: Seq<char>,
    function: Seq<char>,
    params: Option<Seq<char>>,
    out: Seq<char>,
) -> bool {
    exists|on: PathColours| out == #[trigger] test_path(on, module, function, params)
}

/// Joins the parts of a test path.
pub fn join_test_path(module: &str, function: &str, params: &str) -> (path: String)
    ensures
        path@ == module@ + "::"@ + function@ + params@,
{
    module.to_owned().concat("::").concat(function).concat(params)
}

/// Colours the parts of a test path and joins them.
pub fn paint_test_path(module: &str, function: &str, params: Option<&str>) -> (path: String)
    ensures
        is_test_path(
            module@,
            function@,
            match params {
                Some(params) => Some(params@),
                None => None,
            },
            path@,
        ),
{
    let shown_module = apply(Paint::Cyan, module);
    let shown_function = apply(Paint::BlueBold, function);
    let shown_params = match params {
        Some(params) => apply(Paint::BlueBold, params),
        None => String::new(),
    };
    let path = join_test_path(
        shown_module.as_str(),
        shown_function.as_str(),
        shown_params.as_str(),
    );
    proof {
        let id = match params {
            Some(params) => Some(params@),
            None => None,
        };
        let on = PathColours {
            module: shown_module@ == style::shade(true, Paint::Cyan, module@),
            function: shown_function@ == style::shade(true, Paint::BlueBold, function@),
            params: id is Some && shown_params@ == style::shade(true, Paint::BlueBold, id->0),
        };
        assert(path@ =~= test_path(on, module@, function@, id));
    }
    path
}

/// The path of `test_name` as a report line shows it.
pub fn format_test_path(test_name: &QualifiedTestName) -> (path: String)
    ensures
        is_test_path(
            test_name.module_name@,
            test_name.function_name@,
            name::optional_text(test_name.params),
            path@,
        ),
{
    paint_test_path(
        test_name.module_name.as_str(),
        test_name.function_name.as_str(),
        match &test_name.params {
            Some(params) => Some(params.as_str()),
            None => None,
        },
    )
}

/// Without colours, a test path is the full name of the test.
pub proof fn law_plain_path_is_the_name(
    module: Seq<char>,
    function: Seq<char>,
    params: Option<Seq<char>>,
)
    ensures
        test_path(
            (PathColours { module: false, function: false, params: false }),
            module,
            function,
            params,
        ) == name::full_name(module, function, params),
{
    let on = PathColours { module: false, function: false, params: false };
    assert(test_path(on, module, function, params) =~= name::full_name(module, function, params));
}

/// A report line: what leads up to the label, the label, the duration and the test path.
pub open spec fn report_line(
    lead: Seq<char>,
    label: Seq<char>,
    duration: Seq<char>,
    path: Seq<char>,
) -> Seq<char> {
    lead + label + " "@ + duration + " "@ + path
}

/// Joins the parts of a report line.
pub fn join_report_line(lead: &str, label: &str, duration: &str, path: &str) -> (line: String)
    ensures
        line@ == report_line(lead@, label@, duration@, path@),
{
    lead.to_owned().concat(label).concat(" ").concat(duration).concat(" ").concat(path)
}

/// Padding is blank, and as long as a label of `len` characters leaves room in twelve columns.
pub proof fn law_padding_fills_twelve_columns(len: nat, i: int)
    ensures
        len <= 12 ==> padding(len).len() == 12 - len,
        len > 12 ==> padding(len).len() == 0,
        0 <= i < padding(len).len() ==> padding(len)[i] == ' ',
{
}

/// A report line holds everything it is given, in order and with one space between the label,
/// the duration and the path.
pub proof fn law_report_lines_hold_their_parts(
    lead: Seq<char>,
    label: Seq<char>,
    duration: Seq<char>,
    path: Seq<char>,
)
    ensures
        report_line(lead, label, duration, path) == lead + label + seq![' '] + duration + seq![' ']
            + path,
{
    reveal_strlit(" ");
    assert(" "@ =~= seq![' ']);
}

/// A test path in colour: the module, two colons, the function and the parametrize id, each
/// part in its own look.
pub proof fn law_paths_hold_their_parts(
    on: PathColours,
    module: Seq<char>,
    function: Seq<char>,
    id: Seq<char>,
)
    ensures
        test_path(on, module, function, None) == style::shade(on.module, Paint::Cyan, module)
            + seq![':', ':'] + style::shade(on.function, Paint::BlueBold, function),
        test_path(on, module, function, Some(id)) == test_path(on, module, function, None)
            + style::shade(on.params, Paint::BlueBold, id),
{
    reveal_strlit("::");
    assert("::"@ =~= seq![':', ':']);
    let bare = style::shade(on.module, Paint::Cyan, module) + "::"@ + style::shade(
        on.function,
        Paint::BlueBold,
        function,
    );
    assert(bare + Seq::empty() =~= bare);
}

} // verus!
