//! Format detection: a heuristic that suggests what a text value is.
//!
//! The rules look at the shape of a value only. They do not validate it, so
//! a value that is no address may still be labelled as one.

use vstd::prelude::*;
use vstd::string::StringExecFns;
use crate::text::{contains_char, contains_text, starts_with, texts};

verus! {

/// The label of a value that looks like an e-mail address.
pub open spec fn email_label() -> Seq<char> {
    "Email"@
}

/// The label of a value that looks like a web address.
pub open spec fn url_label() -> Seq<char> {
    "URL"@
}

/// A value looks like an e-mail address if it holds both `@` and `.`.
pub open spec fn looks_like_email(value: Seq<char>) -> bool {
    value.contains('@') && value.contains('.')
}

/// A value looks like a web address if it begins with `http` or `www`.
pub open spec fn looks_like_url(value: Seq<char>) -> bool {
    "http"@.is_prefix_of(value) || "www"@.is_prefix_of(value)
}

/// The labels that `value` adds to those already detected: first the e-mail
/// label, then the web address label, each only if its rule holds of the
/// value and the label is not yet among `detected`.
pub open spec fn new_labels(value: Seq<char>, detected: Seq<Seq<char>>) -> Seq<Seq<char>> {
    let email: Seq<Seq<char>> = if looks_like_email(value) && !detected.contains(email_label()) {
        seq![email_label()]
    } else {
        seq![]
    };
    let url: Seq<Seq<char>> = if looks_like_url(value) && !detected.contains(url_label()) {
        seq![url_label()]
    } else {
        seq![]
    };
    email + url
}

/// The two labels are different texts.
pub proof fn lemma_labels_differ()
    ensures
        email_label() != url_label(),
{
    reveal_strlit("Email");
    reveal_strlit("URL");
    assert(email_label().len() != url_label().len());
}

/// Adding the new labels of a value to a list without repeats gives a list
/// without repeats.
pub proof fn lemma_new_labels_keep_distinct(value: Seq<char>, detected: Seq<Seq<char>>)
    requires
        detected.no_duplicates(),
    ensures
        (detected + new_labels(value, detected)).no_duplicates(),
{
    lemma_labels_differ();
}

/// Detects the formats that `value` suggests and that are not yet among
/// `already_detected`.
pub fn classify(value: &str, already_detected: &Vec<String>) -> (labels: Vec<String>)
    ensures
        texts(labels@) == new_labels(value@, texts(already_detected@)),
{
    let email = String::from_str("Email");
    let url = String::from_str("URL");
    let mut labels: Vec<String> = Vec::new();
    if contains_char(value, '@') && contains_char(value, '.') && !contains_text(
        already_detected,
        &email,
    ) {
        labels.push(email);
    }
    if (starts_with(value, "http") || starts_with(value, "www")) && !contains_text(
        already_detected,
        &url,
    ) {
        labels.push(url);
    }
    labels
}

} // verus!
