//! The HTML pages and fragments the client role serves.

use vstd::prelude::*;

verus! {

/// The page sent for a path this engine does not serve.
pub fn html_404() -> (r: String)
    ensures
        r@
            == "\n<!DOCTYPE html>\n<html lang='en'>\n  <head>\n    <meta charset='utf-8'>\n    <title>Hello!</title>\n  </head>\n  <body>\n    <h1>Oops!</h1>\n    <p>Sorry, I don't know what you're asking for.</p>\n  </body>\n</html>\n"@,
{
    "\n<!DOCTYPE html>\n<html lang='en'>\n  <head>\n    <meta charset='utf-8'>\n    <title>Hello!</title>\n  </head>\n  <body>\n    <h1>Oops!</h1>\n    <p>Sorry, I don't know what you're asking for.</p>\n  </body>\n</html>\n".to_owned()
}

/// The protected resource itself.
pub fn html_resource() -> (r: String)
    ensures
        r@ == "This is the content of the protected resource."@,
{
    "This is the content of the protected resource.".to_owned()
}

/// The head of the page that shows the protected resource.
pub fn html_resource_header() -> (r: String)
    ensures
        r@
            == "\n<!DOCTYPE html>\n<html lang='en'>\n  <head>\n    <meta charset='utf-8'>\n    <title>Protected Resource</title>\n  </head>\n  <body>\n  <title>Protected Resource</title>\n"@,
{
    "\n<!DOCTYPE html>\n<html lang='en'>\n  <head>\n    <meta charset='utf-8'>\n    <title>Protected Resource</title>\n  </head>\n  <body>\n  <title>Protected Resource</title>\n".to_owned()
}

/// The foot of the page that shows the protected resource.
pub fn html_resource_footer() -> (r: String)
    ensures
        r@ == "\n  </body>\n</html>\n"@,
{
    "\n  </body>\n</html>\n".to_owned()
}

/// The credential form, without its closing tags.
pub fn html_authorization_form() -> (r: String)
    ensures
        r@ == spec_html_authorization_form(),
{
    "\n<!DOCTYPE html>\n<html lang='en'>\n  <head>\n    <meta charset='utf-8'>\n    <title>Authorization Prompt</title>\n  </head>\n  <body>\n    <h1>Authorization Prompt</h1>\n    <p>It seems like you don't have a valid access token, to let me access your protected resource please fill out the following fields:</p>\n    <form action='/authorize' method='post'>\n      <label for='username'>Username</label>\n      <input type='text' id='username' name='username' required>\n      <label for='password'>Password</label>\n      <input type='password' id='password' name='password' required>\n      <input type='submit' value='Authorize'>\n    </form>\n".to_owned()
}

/// The text of the credential form.
pub open spec fn spec_html_authorization_form() -> Seq<char> {
    "\n<!DOCTYPE html>\n<html lang='en'>\n  <head>\n    <meta charset='utf-8'>\n    <title>Authorization Prompt</title>\n  </head>\n  <body>\n    <h1>Authorization Prompt</h1>\n    <p>It seems like you don't have a valid access token, to let me access your protected resource please fill out the following fields:</p>\n    <form action='/authorize' method='post'>\n      <label for='username'>Username</label>\n      <input type='text' id='username' name='username' required>\n      <label for='password'>Password</label>\n      <input type='password' id='password' name='password' required>\n      <input type='submit' value='Authorize'>\n    </form>\n"@
}

/// The text of the table that presents a fetched resource.
pub open spec fn spec_html_resource_table(
    content: Seq<char>,
    token: Seq<char>,
    expiry: Seq<char>,
) -> Seq<char> {
    "\n      <br>\n      <p>Resource Content: "@ + content + "<br>\n      Accessed with token: "@
        + token + "<br>\n      Token expires in "@ + expiry + " seconds!<br></p>"@
}

/// A table presenting a fetched resource, the token used, and the seconds
/// it has left.
pub fn html_resource_table(resource_content: &str, token: &str, expiry: &str) -> (r: String)
    ensures
        r@ == spec_html_resource_table(resource_content@, token@, expiry@),
{
    let mut s = "\n      <br>\n      <p>Resource Content: ".to_owned();
    s.append(resource_content);
    s.append("<br>\n      Accessed with token: ");
    s.append(token);
    s.append("<br>\n      Token expires in ");
    s.append(expiry);
    s.append(" seconds!<br></p>");
    proof {
        assert(s@ =~= spec_html_resource_table(resource_content@, token@, expiry@));
    }
    s
}

/// The text of the authorization prompt with a trailing notice.
pub open spec fn spec_html_authorization_prompt(error: Seq<char>) -> Seq<char> {
    spec_html_authorization_form() + "\n\n"@ + error + "\n</body>\n</html>"@
}

/// The authorization prompt page, with `error` appended before the closing
/// tags.
pub fn html_authorization_prompt(error: &str) -> (r: String)
    ensures
        r@ == spec_html_authorization_prompt(error@),
{
    let mut s = html_authorization_form();
    s.append("\n\n");
    s.append(error);
    s.append("\n</body>\n</html>");
    proof {
        assert(s@ =~= spec_html_authorization_prompt(error@));
    }
    s
}

} // verus!
