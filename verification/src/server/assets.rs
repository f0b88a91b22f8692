//! Web assets: what type of content a path names.
use vstd::prelude::*;

use crate::text::{after_last, behind_last, same, Text};

verus! {

/// The content type that the part of a path behind its last dot names.
pub open spec fn content_type_of(ext: Text) -> Text {
    if ext == "js"@ {
        "text/javascript; charset=utf-8"@
    } else if ext == "css"@ {
        "text/css; charset=utf-8"@
    } else if ext == "svg"@ {
        "image/svg+xml"@
    } else if ext == "png"@ {
        "image/png"@
    } else if ext == "ico"@ {
        "image/x-icon"@
    } else if ext == "map"@ || ext == "json"@ {
        "application/json"@
    } else {
        "application/octet-stream"@
    }
}

/// The content type of an asset.
pub fn content_type(path: &str) -> (r: &'static str)
    ensures
        r@ == content_type_of(after_last(path@, '.')),
{
    let ext: String = behind_last(path, '.').0;
    if same(&ext, "js") {
        "text/javascript; charset=utf-8"
    } else if same(&ext, "css") {
        "text/css; charset=utf-8"
    } else if same(&ext, "svg") {
        "image/svg+xml"
    } else if same(&ext, "png") {
        "image/png"
    } else if same(&ext, "ico") {
        "image/x-icon"
    } else if same(&ext, "map") || same(&ext, "json") {
        "application/json"
    } else {
        "application/octet-stream"
    }
}

/// Which type of content each extension names; any other is plain bytes.
pub proof fn an_extension_names_its_type(ext: Text)
    ensures
        content_type_of(ext) == "text/javascript; charset=utf-8"@ <==> ext == "js"@,
        content_type_of(ext) == "text/css; charset=utf-8"@ <==> ext == "css"@,
        content_type_of(ext) == "image/svg+xml"@ <==> ext == "svg"@,
        content_type_of(ext) == "image/png"@ <==> ext == "png"@,
        content_type_of(ext) == "image/x-icon"@ <==> ext == "ico"@,
        content_type_of(ext) == "application/json"@ <==> ext == "map"@ || ext == "json"@,
        content_type_of(ext) == "application/octet-stream"@ <==> ext != "js"@ && ext != "css"@ && ext != "svg"@ && ext != "png"@
            && ext != "ico"@ && ext != "map"@ && ext != "json"@,
{
    reveal_strlit("js");
    reveal_strlit("css");
    reveal_strlit("svg");
    reveal_strlit("png");
    reveal_strlit("ico");
    reveal_strlit("map");
    reveal_strlit("json");
    reveal_strlit("text/javascript; charset=utf-8");
    reveal_strlit("text/css; charset=utf-8");
    reveal_strlit("image/svg+xml");
    reveal_strlit("image/png");
    reveal_strlit("image/x-icon");
    reveal_strlit("application/json");
    reveal_strlit("application/octet-stream");
    assert("css"@[0] == 'c' && "svg"@[0] == 's' && "png"@[0] == 'p' && "ico"@[0] == 'i' && "map"@[0] == 'm');
    assert("js"@.len() == 2 && "json"@.len() == 4 && "css"@.len() == 3);
    assert("text/javascript; charset=utf-8"@.len() == 30 && "text/css; charset=utf-8"@.len() == 23);
    assert("image/svg+xml"@.len() == 13 && "image/png"@.len() == 9 && "image/x-icon"@.len() == 12);
    assert("application/json"@.len() == 16 && "application/octet-stream"@.len() == 24);
}

} // verus!
