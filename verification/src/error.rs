//! What can go wrong while a request is served, and how the client is told.
use vstd::prelude::*;
use vstd::string::*;

use crate::numerals::decimal_u64;

verus! {

/// Why a request was not served. The texts of the last four are for the log only.
#[derive(Debug)]
pub enum AppError {
    NotFound,
    Unauthorized,
    /// The answer to a git client must carry `WWW-Authenticate`, so that it asks for credentials.
    GitUnauthorized,
    Forbidden,
    BadRequest(String),
    Internal(String),
    Db(String),
    Git(String),
    Template(String),
}

/// An [`AppError`] with its text as a sequence of characters.
#[verifier::ext_equal]
pub enum Fault {
    NotFound,
    Unauthorized,
    GitUnauthorized,
    Forbidden,
    BadRequest(Seq<char>),
    Internal(Seq<char>),
    Db(Seq<char>),
    Git(Seq<char>),
    Template(Seq<char>),
}

impl View for AppError {
    type V = Fault;

    open spec fn view(&self) -> Fault {
        match self {
            AppError::NotFound => Fault::NotFound,
            AppError::Unauthorized => Fault::Unauthorized,
            AppError::GitUnauthorized => Fault::GitUnauthorized,
            AppError::Forbidden => Fault::Forbidden,
            AppError::BadRequest(t) => Fault::BadRequest(t@),
            AppError::Internal(t) => Fault::Internal(t@),
            AppError::Db(t) => Fault::Db(t@),
            AppError::Git(t) => Fault::Git(t@),
            AppError::Template(t) => Fault::Template(t@),
        }
    }
}

/// An HTTP answer to a failed request.
#[derive(Debug)]
pub struct ErrorReply {
    pub status: u16,
    /// The value of the `WWW-Authenticate` header, where there is one.
    pub www_authenticate: Option<String>,
    /// Whether the body is an HTML page; it is plain text otherwise.
    pub is_html: bool,
    pub body: String,
}

/// What stands for `c` inside HTML text.
pub open spec fn html_form(c: char) -> Seq<char> {
    if c == '&' {
        "&amp;"@
    } else if c == '<' {
        "&lt;"@
    } else if c == '>' {
        "&gt;"@
    } else if c == '"' {
        "&quot;"@
    } else if c == '\'' {
        "&#x27;"@
    } else {
        seq![c]
    }
}

/// `s` with each character that HTML gives a meaning replaced by its entity.
pub open spec fn html_escaped(s: Seq<char>) -> Seq<char>
    decreases s.len(),
{
    if s.len() == 0 {
        Seq::empty()
    } else {
        html_escaped(s.drop_last()) + html_form(s.last())
    }
}

/// `s` with each character that HTML gives a meaning replaced by its entity.
pub fn html_escape(s: &str) -> (r: String)
    ensures
        r@ == html_escaped(s@),
{
    let mut out = String::new();
    for c in it: s.chars()
        invariant
            it.seq() == s@,
            out@ == html_escaped(s@.take(it.index())),
    {
        proof {
            let n = it.index();
            assert(s@.take(n + 1).drop_last() == s@.take(n));
            assert(s@.take(n + 1).last() == c);
        }
        if c == '&' {
            out.append("&amp;");
        } else if c == '<' {
            out.append("&lt;");
        } else if c == '>' {
            out.append("&gt;");
        } else if c == '"' {
            out.append("&quot;");
        } else if c == '\'' {
            out.append("&#x27;");
        } else {
            out.push(c);
        }
    }
    assert(s@.take(s@.len() as int) == s@);
    out
}

/// Escaped text holds no character that could open or close a tag or an attribute value.
pub proof fn escaped_text_has_no_markup(s: Seq<char>)
    ensures
        !html_escaped(s).contains('<'),
        !html_escaped(s).contains('>'),
        !html_escaped(s).contains('"'),
        !html_escaped(s).contains('\''),
    decreases s.len(),
{
    if s.len() > 0 {
        escaped_text_has_no_markup(s.drop_last());
        reveal_strlit("&amp;");
        reveal_strlit("&lt;");
        reveal_strlit("&gt;");
        reveal_strlit("&quot;");
        reveal_strlit("&#x27;");
        let front = html_escaped(s.drop_last());
        let form = html_form(s.last());
        assert forall|j: int| 0 <= j < form.len() implies form[j] != '<' && form[j] != '>'
            && form[j] != '"' && form[j] != '\'' by {}
        assert forall|j: int| 0 <= j < (front + form).len() implies (front + form)[j] != '<' && (
        front + form)[j] != '>' && (front + form)[j] != '"' && (front + form)[j] != '\'' by {
            if j < front.len() {
                assert(front.contains(front[j]));
            } else {
                assert((front + form)[j] == form[j - front.len()]);
            }
        }
    }
}

/// The HTTP status code for an error.
pub open spec fn status_of(e: Fault) -> u16 {
    match e {
        Fault::NotFound => 404,
        Fault::Unauthorized => 401,
        Fault::GitUnauthorized => 401,
        Fault::Forbidden => 403,
        Fault::BadRequest(_) => 422,
        _ => 500,
    }
}

/// What the error page says: nothing of the text that the error carries.
pub open spec fn public_text(e: Fault) -> Seq<char> {
    match e {
        Fault::NotFound => "not found"@,
        Fault::Unauthorized => "login required"@,
        Fault::GitUnauthorized => "Unauthorized"@,
        Fault::Forbidden => "forbidden"@,
        Fault::BadRequest(_) => "invalid input"@,
        Fault::Internal(_) => "internal server error"@,
        Fault::Db(_) => "database error"@,
        Fault::Git(_) => "git operation failed"@,
        Fault::Template(_) => "template render failed"@,
    }
}

/// The page for an error: its status code as a heading, its text as a paragraph.
pub open spec fn error_page(status: u16, text: Seq<char>) -> Seq<char> {
    "<h2>"@ + crate::numerals::decimal(status as nat) + "</h2><p>"@ + html_escaped(text)
        + "</p>"@
}

/// What the log says of an error.
pub open spec fn log_text(e: Fault) -> Seq<char> {
    match e {
        Fault::NotFound => "not found"@,
        Fault::Unauthorized => "unauthorized"@,
        Fault::GitUnauthorized => "authentication required"@,
        Fault::Forbidden => "forbidden"@,
        Fault::BadRequest(t) => "bad request: "@ + t,
        Fault::Internal(t) => "internal error: "@ + t,
        Fault::Db(t) => "database error: "@ + t,
        Fault::Git(t) => "git error: "@ + t,
        Fault::Template(t) => "template error: "@ + t,
    }
}

impl AppError {
    /// What the log says of this error.
    pub fn message(&self) -> (r: String)
        ensures
            r@ == log_text(self@),
    {
        match self {
            AppError::NotFound => "not found".to_owned(),
            AppError::Unauthorized => "unauthorized".to_owned(),
            AppError::GitUnauthorized => "authentication required".to_owned(),
            AppError::Forbidden => "forbidden".to_owned(),
            AppError::BadRequest(t) => crate::text::joined("bad request: ", t.as_str()),
            AppError::Internal(t) => crate::text::joined("internal error: ", t.as_str()),
            AppError::Db(t) => crate::text::joined("database error: ", t.as_str()),
            AppError::Git(t) => crate::text::joined("git error: ", t.as_str()),
            AppError::Template(t) => crate::text::joined("template error: ", t.as_str()),
        }
    }

    /// The answer that the client gets.
    pub fn into_response(self) -> (r: ErrorReply)
        ensures
            r.status == status_of(self@),
            self is GitUnauthorized <==> r.www_authenticate is Some,
            r.www_authenticate matches Some(challenge) ==> challenge@
                == "Basic realm=\"Gitom\", charset=\"UTF-8\""@,
            r.is_html == !(self is GitUnauthorized),
            self is GitUnauthorized ==> r.body@ == public_text(self@),
            !(self is GitUnauthorized) ==> r.body@ == error_page(
                status_of(self@),
                public_text(self@),
            ),
    {
        let (status, text): (u16, &str) = match &self {
            AppError::GitUnauthorized => {
                return ErrorReply {
                    status: 401,
                    www_authenticate: Some("Basic realm=\"Gitom\", charset=\"UTF-8\"".to_owned()),
                    is_html: false,
                    body: "Unauthorized".to_owned(),
                };
            },
            AppError::NotFound => (404, "not found"),
            AppError::Unauthorized => (401, "login required"),
            AppError::Forbidden => (403, "forbidden"),
            AppError::BadRequest(_) => (422, "invalid input"),
            AppError::Template(_) => (500, "template render failed"),
            AppError::Git(_) => (500, "git operation failed"),
            AppError::Internal(_) => (500, "internal server error"),
            AppError::Db(_) => (500, "database error"),
        };
        let mut body = "<h2>".to_owned();
        body.append(decimal_u64(status as u64).as_str());
        body.append("</h2><p>");
        body.append(html_escape(text).as_str());
        body.append("</p>");
        ErrorReply { status, www_authenticate: None, is_html: true, body }
    }
}

/// The page for an error tells nothing of the text that the error carries.
pub proof fn error_page_hides_the_cause(a: Seq<char>, b: Seq<char>)
    ensures
        public_text(Fault::BadRequest(a)) == public_text(Fault::BadRequest(b)),
        public_text(Fault::Internal(a)) == public_text(Fault::Internal(b)),
        public_text(Fault::Db(a)) == public_text(Fault::Db(b)),
        public_text(Fault::Git(a)) == public_text(Fault::Git(b)),
        public_text(Fault::Template(a)) == public_text(Fault::Template(b)),
{
}

/// Text is escaped character by character: the five characters that HTML gives a meaning become
/// entities, and every other one stays as it is.
pub proof fn text_is_escaped_character_by_character(a: Seq<char>, b: Seq<char>, c: char)
    ensures
        html_escaped(a + b) == html_escaped(a) + html_escaped(b),
        html_escaped(Seq::<char>::empty()) == Seq::<char>::empty(),
        html_escaped(seq!['&']) == "&amp;"@,
        html_escaped(seq!['<']) == "&lt;"@,
        html_escaped(seq!['>']) == "&gt;"@,
        html_escaped(seq!['"']) == "&quot;"@,
        html_escaped(seq!['\'']) == "&#x27;"@,
        c != '&' && c != '<' && c != '>' && c != '"' && c != '\'' ==> html_escaped(seq![c])
            == seq![c],
    decreases b.len(),
{
    one_character_is_escaped('&');
    one_character_is_escaped('<');
    one_character_is_escaped('>');
    one_character_is_escaped('"');
    one_character_is_escaped('\'');
    one_character_is_escaped(c);
    if b.len() > 0 {
        let rest = b.drop_last();
        text_is_escaped_character_by_character(a, rest, c);
        assert((a + b).drop_last() == a + rest);
        assert((a + b).last() == b.last());
        assert(html_escaped(a) + html_escaped(rest) + html_form(b.last()) == html_escaped(a) + (
        html_escaped(rest) + html_form(b.last())));
    } else {
        assert(a + b == a);
        assert(html_escaped(a) + Seq::<char>::empty() == html_escaped(a));
    }
}

proof fn one_character_is_escaped(c: char)
    ensures
        html_escaped(seq![c]) == html_form(c),
{
    assert(seq![c].drop_last() == Seq::<char>::empty());
    assert(seq![c].last() == c);
    assert(html_escaped(Seq::<char>::empty()) == Seq::<char>::empty());
    assert(Seq::<char>::empty() + html_form(c) == html_form(c));
}

/// Each error has its status code: 404 for what is not there, 401 where credentials are missing,
/// 403 where they are not enough, 422 for what the client got wrong and 500 for what the server
/// did. What the server got wrong is never put down to the client.
pub proof fn each_error_has_its_status(e: AppError)
    ensures
        e is NotFound ==> status_of(e@) == 404,
        e is Unauthorized || e is GitUnauthorized ==> status_of(e@) == 401,
        e is Forbidden ==> status_of(e@) == 403,
        e is BadRequest ==> status_of(e@) == 422,
        e is Internal || e is Db || e is Git || e is Template ==> status_of(e@) == 500,
        status_of(e@) >= 500 <==> e is Internal || e is Db || e is Git || e is Template,
{
}

/// The client is told what kind of error there was, and each kind in its own words.
pub proof fn client_is_told_the_kind_of_error(e: AppError)
    ensures
        e is NotFound ==> public_text(e@) == "not found"@,
        e is Unauthorized ==> public_text(e@) == "login required"@,
        e is GitUnauthorized ==> public_text(e@) == "Unauthorized"@,
        e is Forbidden ==> public_text(e@) == "forbidden"@,
        e is BadRequest ==> public_text(e@) == "invalid input"@,
        e is Internal ==> public_text(e@) == "internal server error"@,
        e is Db ==> public_text(e@) == "database error"@,
        e is Git ==> public_text(e@) == "git operation failed"@,
        e is Template ==> public_text(e@) == "template render failed"@,
{
}

/// The log tells the kind of error and, behind it, the whole cause.
pub proof fn log_tells_the_whole_cause(e: AppError)
    ensures
        e is NotFound ==> log_text(e@) == "not found"@,
        e is Unauthorized ==> log_text(e@) == "unauthorized"@,
        e is GitUnauthorized ==> log_text(e@) == "authentication required"@,
        e is Forbidden ==> log_text(e@) == "forbidden"@,
        e matches AppError::BadRequest(t) ==> log_text(e@) == "bad request: "@ + t@,
        e matches AppError::Internal(t) ==> log_text(e@) == "internal error: "@ + t@,
        e matches AppError::Db(t) ==> log_text(e@) == "database error: "@ + t@,
        e matches AppError::Git(t) ==> log_text(e@) == "git error: "@ + t@,
        e matches AppError::Template(t) ==> log_text(e@) == "template error: "@ + t@,
{
}

/// The page for an error has its status code, in decimal, as the heading and its text, escaped, as
/// the paragraph.
pub proof fn page_shows_status_and_text(status: u16, text: Seq<char>)
    ensures
        exists|digits: Seq<char>| #[trigger]
            crate::numerals::value_of(digits, 10) == status && error_page(status, text)
                == "<h2>"@ + digits + "</h2><p>"@ + html_escaped(text) + "</p>"@,
{
    let digits = crate::numerals::decimal(status as nat);
    crate::numerals::numeral_reads_as_its_number(status as nat, 10);
    assert(crate::numerals::value_of(digits, 10) == status);
}

/// An error is seen as what it is.
pub proof fn errors_are_seen_as_they_are(e: AppError)
    ensures
        e is NotFound <==> e@ is NotFound,
        e is Unauthorized <==> e@ is Unauthorized,
        e is GitUnauthorized <==> e@ is GitUnauthorized,
        e is Forbidden <==> e@ is Forbidden,
        e matches AppError::BadRequest(t) ==> e@ == Fault::BadRequest(t@),
        e matches AppError::Internal(t) ==> e@ == Fault::Internal(t@),
        e matches AppError::Db(t) ==> e@ == Fault::Db(t@),
        e matches AppError::Git(t) ==> e@ == Fault::Git(t@),
        e matches AppError::Template(t) ==> e@ == Fault::Template(t@),
{
}

} // verus!
