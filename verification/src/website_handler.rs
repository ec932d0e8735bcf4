//! A handler that serves the files of one directory.
//!
//! Reading the files is the caller's. What is here says which file a path
//! asks for, and what is answered once the read has come back.

use vstd::prelude::*;
use vstd::string::StringExecFns;
use crate::http::response::{body_text, not_found_page, permission_denied_page, Response};
use crate::http::status_code::StatusCode;
use crate::http::text::str_eq;

verus! {

/// Serves the files below `public_dir`.
#[derive(Debug)]
pub struct WebsiteHandler {
    public_dir: String,
}

/// What a GET asks for.
#[derive(Debug)]
pub enum Plan<'a> {
    /// A file below the public directory. With `report`, a failure to read
    /// it is told to the client in so many words.
    Read { file: &'a str, report: bool },
    /// The one path that never has a file.
    Apples,
}

/// How the read of a file went.
#[derive(Debug)]
pub enum FileRead {
    /// The file's text.
    Found(String),
    /// The file lies outside the public directory. With the failure's message.
    Denied(String),
    /// The file could not be read. With the failure's message.
    Failed(String),
}

/// What a GET for `path` asks for: `/` is the index page, `/apples` is
/// nothing, any other path is the file of that name.
pub open spec fn plan_of(path: Seq<char>) -> (Option<(Seq<char>, bool)>) {
    if path == "/"@ {
        Some(("index.html"@, true))
    } else if path == "/apples"@ {
        None
    } else {
        Some((path, false))
    }
}

/// The failure's message as a paragraph.
pub open spec fn paragraph(message: Seq<char>) -> Seq<char> {
    "<p>"@ + message + "</p>"@
}

impl WebsiteHandler {
    /// The directory that is served.
    pub closed spec fn dir(&self) -> Seq<char> {
        self.public_dir@
    }

    /// A handler for the files below `public_dir`.
    pub fn new(public_dir: String) -> (r: Self)
        ensures
            r.dir() == public_dir@,
    {
        WebsiteHandler { public_dir }
    }

    /// The directory that is served.
    pub fn public_dir(&self) -> (r: &str)
        ensures
            r@ == self.dir(),
    {
        self.public_dir.as_str()
    }

    /// Where the file `file` is looked for: below the public directory.
    pub fn file_path(&self, file: &str) -> (r: String)
        ensures
            r@ == self.dir() + "/"@ + file@,
    {
        let mut r = self.public_dir.clone();
        r.append("/");
        r.append(file);
        r
    }

    /// Says what a GET for `path` asks for.
    pub fn plan<'a>(path: &'a str) -> (r: Plan<'a>)
        ensures
            match r {
                Plan::Read { file, report } => plan_of(path@) == Some((file@, report)),
                Plan::Apples => plan_of(path@) is None,
            },
    {
        if str_eq(path, "/") {
            Plan::Read { file: "index.html", report: true }
        } else if str_eq(path, "/apples") {
            Plan::Apples
        } else {
            Plan::Read { file: path, report: false }
        }
    }

    /// Answers the GET that asks for no file: a 404 that says what there is.
    pub fn reply_apples(res: &mut Response)
        ensures
            final(res).status == StatusCode::NotFound,
            body_text(final(res).body) == not_found_page() + "We only have bananas"@,
            final(res).writer@ == old(res).writer@ + final(res).spec_wire(),
            *final(final(res).writer) == *final(old(res).writer),
    {
        res.gen_404().append(String::from_str("We only have bananas")).send()
    }

    /// Answers a GET once its file was read: the file's text where there is
    /// one; else, with `report`, a 404 that ends in the failure's message;
    /// else the 403 page for a file outside the directory, and the 404 page
    /// for any other failure.
    pub fn reply_file(res: &mut Response, report: bool, read: FileRead)
        ensures
            final(res).writer@ == old(res).writer@ + final(res).spec_wire(),
            *final(final(res).writer) == *final(old(res).writer),
            match read {
                FileRead::Found(text) => final(res).status == StatusCode::Okay && final(res).body
                    == Some(text),
                FileRead::Denied(message) => if report {
                    final(res).status == StatusCode::NotFound && body_text(final(res).body)
                        == not_found_page() + paragraph(message@)
                } else {
                    final(res).status == StatusCode::PermissionDenied && body_text(final(res).body)
                        == permission_denied_page()
                },
                FileRead::Failed(message) => final(res).status == StatusCode::NotFound && body_text(
                    final(res).body,
                ) == if report {
                    not_found_page() + paragraph(message@)
                } else {
                    not_found_page()
                },
            },
    {
        match read {
            FileRead::Found(text) => res.ok(Some(text)),
            FileRead::Denied(message) => {
                if report {
                    WebsiteHandler::reply_reporting(res, message)
                } else {
                    res.send_403()
                }
            },
            FileRead::Failed(message) => {
                if report {
                    WebsiteHandler::reply_reporting(res, message)
                } else {
                    res.send_404()
                }
            },
        }
    }

    /// Answers every POST: a 404 that says so.
    pub fn reply_post(res: &mut Response)
        ensures
            final(res).status == StatusCode::NotFound,
            body_text(final(res).body) == not_found_page() + "We don't recieve mail"@,
            final(res).writer@ == old(res).writer@ + final(res).spec_wire(),
            *final(final(res).writer) == *final(old(res).writer),
    {
        res.gen_404().append(String::from_str("We don't recieve mail")).send()
    }

    /// Sends the 404 page with the failure's message after it.
    fn reply_reporting(res: &mut Response, message: String)
        ensures
            final(res).status == StatusCode::NotFound,
            body_text(final(res).body) == not_found_page() + paragraph(message@),
            final(res).writer@ == old(res).writer@ + final(res).spec_wire(),
            *final(final(res).writer) == *final(old(res).writer),
    {
        let mut p = String::from_str("<p>");
        p.append(message.as_str());
        p.append("</p>");
        res.gen_404().append(p).send()
    }
}

} // verus!
