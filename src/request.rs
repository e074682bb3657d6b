use vstd::prelude::*;
use vstd::string::*;

verus! {

/// The address under which the content API serves blocks.
pub open spec fn blocks_base() -> Seq<char> {
    "https://api.notion.com/v1/blocks/"@
}

/// The address that lists the children of a block.
pub open spec fn children_url_spec(block_id: Seq<char>) -> Seq<char> {
    blocks_base() + block_id + "/children"@
}

/// The address of a block itself, the target of an update.
pub open spec fn block_url_spec(block_id: Seq<char>) -> Seq<char> {
    blocks_base() + block_id
}

/// The value of the `Authorization` header for a credential.
pub open spec fn bearer_spec(token: Seq<char>) -> Seq<char> {
    "Bearer "@ + token
}

/// The JSON body of an update that sets a checklist item's flag.
pub open spec fn patch_body_spec(checked: bool) -> Seq<char> {
    if checked {
        "{\"to_do\":{\"checked\":true}}"@
    } else {
        "{\"to_do\":{\"checked\":false}}"@
    }
}

/// The API version that every request names in its `Notion-Version` header.
pub open spec fn api_version_spec() -> Seq<char> {
    "2022-06-28"@
}

pub fn children_url(block_id: &str) -> (r: String)
    ensures
        r@ == children_url_spec(block_id@),
{
    let mut url = String::from_str("https://api.notion.com/v1/blocks/");
    url.append(block_id);
    url.append("/children");
    url
}

pub fn block_url(block_id: &str) -> (r: String)
    ensures
        r@ == block_url_spec(block_id@),
{
    let mut url = String::from_str("https://api.notion.com/v1/blocks/");
    url.append(block_id);
    url
}

pub fn bearer(token: &str) -> (r: String)
    ensures
        r@ == bearer_spec(token@),
{
    let mut value = String::from_str("Bearer ");
    value.append(token);
    value
}

pub fn api_version() -> (r: String)
    ensures
        r@ == api_version_spec(),
{
    String::from_str("2022-06-28")
}

pub fn patch_body(checked: bool) -> (r: String)
    ensures
        r@ == patch_body_spec(checked),
{
    if checked {
        String::from_str("{\"to_do\":{\"checked\":true}}")
    } else {
        String::from_str("{\"to_do\":{\"checked\":false}}")
    }
}

} // verus!
