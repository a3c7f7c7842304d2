//! Tools that are scripts in a directory, each named after its tool.
use vstd::prelude::*;
use crate::json;
use crate::json::{Json, JsonTree};
use crate::text;
use vstd::utf8::encode_utf8;

verus! {

/// Seconds that a script may take.
pub const SCRIPT_TIMEOUT_SECS: u64 = 30;

/// Whether a character may stand in the name of a tool.
pub open spec fn is_tool_char(c: char) -> bool {
    ('a' <= c <= 'z') || ('A' <= c <= 'Z') || ('0' <= c <= '9') || c == '-' || c == '_'
}

/// Whether a text is the name of a tool: ASCII letters, digits, hyphens and underscores, at least
/// one of them.
pub open spec fn is_tool_name(name: Seq<char>) -> bool {
    name.len() > 0 && forall|i: int| 0 <= i < name.len() ==> is_tool_char(#[trigger] name[i])
}

/// Whether a text is the name of a tool.
pub fn is_valid_tool_name(name: &str) -> (valid: bool)
    ensures
        valid == is_tool_name(name@),
{
    let chars = text::chars_of(name);
    if chars.len() == 0 {
        return false;
    }
    let mut i: usize = 0;
    while i < chars.len()
        invariant
            i <= chars.len(),
            chars@ == name@,
            forall|j: int| 0 <= j < i ==> is_tool_char(#[trigger] name@[j]),
        decreases chars.len() - i,
    {
        let c = chars[i];
        if !(('a' <= c && c <= 'z') || ('A' <= c && c <= 'Z') || ('0' <= c && c <= '9') || c == '-'
            || c == '_') {
            assert(!is_tool_char(name@[i as int]));
            return false;
        }
        i = i + 1;
    }
    true
}

/// The file that holds the script of a tool; none for what is no name of a tool.
pub fn script_file(tool_name: &str) -> (file: Option<String>)
    ensures
        match file {
            Some(f) => is_tool_name(tool_name@) && f@ == tool_name@ + ".sh"@,
            None => !is_tool_name(tool_name@),
        },
{
    if is_valid_tool_name(tool_name) {
        Some(tool_name.to_owned().concat(".sh"))
    } else {
        None
    }
}

/// What is said of a name that no tool can have.
pub fn invalid_name_message(tool_name: &str) -> (message: String)
    ensures
        message@ == "Invalid tool name '"@ + tool_name@
            + "': only alphanumeric, hyphen, underscore allowed"@,
{
    "Invalid tool name '".to_owned().concat(tool_name).concat(
        "': only alphanumeric, hyphen, underscore allowed",
    )
}

/// What a script gives: the JSON document that it printed, or what it printed as a text where that
/// is no such document. White space around it is left out.
pub open spec fn script_result(printed: Seq<char>) -> JsonTree {
    let output = text::trimmed(printed);
    match json::parsed_json(encode_utf8(output)) {
        Some(tree) => tree,
        None => JsonTree::Text(output),
    }
}

/// What a script gives.
pub fn script_output(printed: &str) -> (result: Json)
    ensures
        result@ == script_result(printed@),
{
    let chars = text::chars_of(printed);
    let output = text::string_of(text::trim(chars.as_slice()));
    let bytes = output.as_str().as_bytes_vec();
    match Json::parse(bytes.as_slice()) {
        Some(value) => value,
        None => Json::Text(output),
    }
}

/// The script of a tool lies in the directory of the scripts: its file name holds no separator
/// and names no other directory.
pub proof fn law_script_stays_in_directory(tool_name: Seq<char>)
    requires
        is_tool_name(tool_name),
    ensures
        !(tool_name + ".sh"@).contains('/'),
        !(tool_name + ".sh"@).contains('\\'),
        tool_name + ".sh"@ != "."@,
        tool_name + ".sh"@ != ".."@,
{
    reveal_strlit(".sh");
    reveal_strlit(".");
    reveal_strlit("..");
    let file = tool_name + ".sh"@;
    assert(file.len() > ".."@.len() && file.len() > "."@.len());
    assert forall|i: int| 0 <= i < file.len() implies file[i] != '/' && file[i] != '\\' by {
        if i < tool_name.len() {
            assert(is_tool_char(tool_name[i]));
        }
    }
}

/// A tool name is a text of letters, digits, hyphens and underscores, at least one of them.
pub proof fn law_tool_names(name: Seq<char>, c: char)
    ensures
        !is_tool_name(Seq::<char>::empty()),
        ({
            let allowed = ('a' <= c <= 'z') || ('A' <= c <= 'Z') || ('0' <= c <= '9') || c == '-' || c
                == '_';
            &&& is_tool_name(seq![c]) <==> allowed
            &&& name.len() > 0 ==> (is_tool_name(name.push(c)) <==> is_tool_name(name) && allowed)
        }),
{
    let one = seq![c];
    assert(one[0] == c);
    let more = name.push(c);
    assert(more[name.len() as int] == c);
    assert(forall|i: int| 0 <= i < name.len() ==> more[i] == name[i]);
    if name.len() > 0 && is_tool_name(more) {
        assert forall|i: int| 0 <= i < name.len() implies is_tool_char(#[trigger] name[i]) by {
            assert(is_tool_char(more[i]));
        }
    }
}

/// What a script prints is its result: the document that it spells, or else the text itself, without the
/// white space round it.
pub proof fn law_result_of_a_script(printed: Seq<char>, tree: JsonTree)
    ensures
        json::parsed_json(encode_utf8(text::trimmed(printed))) == Some(tree) ==> script_result(printed)
            == tree,
        json::parsed_json(encode_utf8(text::trimmed(printed))) is None ==> script_result(printed)
            == JsonTree::Text(text::trimmed(printed)),
{
}

} // verus!
