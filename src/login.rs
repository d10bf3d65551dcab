use vstd::prelude::*;

verus! {

/// The login page up to where the flash messages go.
pub open spec fn login_page_head() -> Seq<char> {
    "<!DOCTYPE html>\n                <html lang=\"en\">\n                <head>\n                    <meta http-equiv=\"content-type\" content=\"text/html; charset=utf-8\">\n                    <title>Login</title>\n                </head>\n                <body>\n                    "@
}

/// The login page after the flash messages: the login form.
pub open spec fn login_page_tail() -> Seq<char> {
    "\n                    <form action=\"/login\" method=\"post\">\n                        <label>Username\n                            <input\n                                type=\"text\"\n                                placeholder=\"Enter Username\"\n                                name=\"username\"\n                > </label>\n                        <label>Password\n                            <input\n                                type=\"password\"\n                                placeholder=\"Enter Password\"\n                                name=\"password\"\n                > </label>\n                        <button type=\"submit\">Login</button>\n                    </form>\n                </body>\n                </html>"@
}

/// Each flash message as an italic paragraph on a line of its own.
pub open spec fn messages_html(messages: Seq<Seq<char>>) -> Seq<char>
    decreases messages.len(),
{
    if messages.len() == 0 {
        Seq::empty()
    } else {
        messages_html(messages.drop_last()) + "<p><i>"@ + messages.last() + "</i></p>\n"@
    }
}

/// Renders the flash messages, in order, as HTML paragraphs.
pub fn flash_messages_html(messages: &Vec<String>) -> (r: String)
    ensures
        r@ == messages_html(messages@.map_values(|m: String| m@)),
{
    let ghost ms = messages@.map_values(|m: String| m@);
    let mut out = String::new();
    let mut i: usize = 0;
    assert(ms.subrange(0, 0) =~= Seq::<Seq<char>>::empty());
    while i < messages.len()
        invariant
            i <= messages@.len(),
            ms == messages@.map_values(|m: String| m@),
            out@ == messages_html(ms.subrange(0, i as int)),
        decreases messages@.len() - i,
    {
        let ghost pre = ms.subrange(0, i + 1);
        assert(pre.drop_last() =~= ms.subrange(0, i as int));
        out.append("<p><i>");
        out.append(messages[i].as_str());
        out.append("</i></p>\n");
        i = i + 1;
    }
    assert(ms.subrange(0, ms.len() as int) =~= ms);
    out
}

/// The login page, showing the flash messages above the login form.
pub fn login_form(messages: &Vec<String>) -> (r: String)
    ensures
        r@ == login_page_head() + messages_html(messages@.map_values(|m: String| m@))
            + login_page_tail(),
{
    let mut page = String::from_str("<!DOCTYPE html>\n                <html lang=\"en\">\n                <head>\n                    <meta http-equiv=\"content-type\" content=\"text/html; charset=utf-8\">\n                    <title>Login</title>\n                </head>\n                <body>\n                    ");
    let errors = flash_messages_html(messages);
    page.append(errors.as_str());
    page.append("\n                    <form action=\"/login\" method=\"post\">\n                        <label>Username\n                            <input\n                                type=\"text\"\n                                placeholder=\"Enter Username\"\n                                name=\"username\"\n                > </label>\n                        <label>Password\n                            <input\n                                type=\"password\"\n                                placeholder=\"Enter Password\"\n                                name=\"password\"\n                > </label>\n                        <button type=\"submit\">Login</button>\n                    </form>\n                </body>\n                </html>");
    page
}

/// The name of the cookie that carries flash messages; the login page asks
/// the browser to remove it once they are shown.
pub fn flash_cookie_name() -> (r: &'static str)
    ensures
        r@ == "_flash"@,
{
    "_flash"
}

} // verus!
