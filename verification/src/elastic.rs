//! The log processor's search-cluster logic: daily index names, the parse of
//! an index name's creation date, the retention policy, and the request
//! bodies and status checks of the cluster calls.  The HTTP transport lives
//! outside; every byte it sends and every decision on what it returned is
//! made here.

use vstd::prelude::*;
use std::collections::HashMap;
use crate::exception::Exception;
use crate::strfmt::str_eq;
use crate::time::Date;
use crate::time::days_in_month;
use crate::time::format_date_dots;
use crate::time::spec_date_dots;
use crate::time::spec_days_in_month;
use crate::web::HttpMethod;
use crate::web::HttpRequest;
use crate::web::spec_is_digit;
use crate::web::spec_digit_value;
use vstd::string::StrSliceExecFns;
use vstd::string::StringExecFns;

verus! {

/// A per-operation performance roll-up carried in an upstream action log.
#[derive(Clone, Copy, PartialEq, Eq, Structural, Debug)]
pub struct PerformanceStatMessage {
    pub total_elapsed: i64,
    pub count: i64,
    pub read_entries: Option<i64>,
    pub write_entries: Option<i64>,
    pub read_bytes: Option<i64>,
    pub write_bytes: Option<i64>,
}

#[derive(Clone, Copy, PartialEq, Eq, Structural, Debug)]
pub enum IndexState {
    Open,
    Close,
}

pub struct Index {
    pub state: IndexState,
}

pub struct Metadata {
    pub indices: HashMap<String, Index>,
}

pub struct ClusterStateResponse {
    pub metadata: Metadata,
}

pub open spec fn spec_is_word_char(c: char) -> bool {
    ||| ('a' <= c && c <= 'z')
    ||| ('A' <= c && c <= 'Z')
    ||| spec_is_digit(c)
    ||| c == '_'
}

pub open spec fn spec_is_name_char(c: char) -> bool {
    spec_is_word_char(c) || c == '.' || c == '-'
}

/// The shape of a dated index name: a word character, at least one name
/// character, a dash, and a `YYYY.MM.DD` tail.
pub open spec fn spec_index_shape(s: Seq<char>) -> bool {
    let p = s.len() - 10;
    &&& s.len() >= 13
    &&& spec_is_word_char(s[0])
    &&& (forall|i: int| 1 <= i < s.len() - 11 ==> spec_is_name_char(#[trigger] s[i]))
    &&& s[s.len() - 11] == '-'
    &&& spec_is_digit(s[p])
    &&& spec_is_digit(s[p + 1])
    &&& spec_is_digit(s[p + 2])
    &&& spec_is_digit(s[p + 3])
    &&& s[p + 4] == '.'
    &&& spec_is_digit(s[p + 5])
    &&& spec_is_digit(s[p + 6])
    &&& s[p + 7] == '.'
    &&& spec_is_digit(s[p + 8])
    &&& spec_is_digit(s[p + 9])
}

/// The date carried in a dated index name's tail.
pub open spec fn spec_index_date(s: Seq<char>) -> Date {
    let p = s.len() - 10;
    Date {
        year: (1000 * spec_digit_value(s[p]) + 100 * spec_digit_value(s[p + 1]) + 10
            * spec_digit_value(s[p + 2]) + spec_digit_value(s[p + 3])) as u16,
        month: (10 * spec_digit_value(s[p + 5]) + spec_digit_value(s[p + 6])) as u8,
        day: (10 * spec_digit_value(s[p + 8]) + spec_digit_value(s[p + 9])) as u8,
    }
}

/// The creation date of a dated index name, when the name has the dated shape
/// and the tail is a valid calendar date.
pub open spec fn spec_created_date(s: Seq<char>) -> Option<Date> {
    if spec_index_shape(s) && spec_index_date(s).wf() {
        Some(spec_index_date(s))
    } else {
        None
    }
}

fn is_word_char(c: char) -> (r: bool)
    ensures
        r == spec_is_word_char(c),
{
    ('a' <= c && c <= 'z') || ('A' <= c && c <= 'Z') || ('0' <= c && c <= '9') || c == '_'
}

fn is_name_char(c: char) -> (r: bool)
    ensures
        r == spec_is_name_char(c),
{
    is_word_char(c) || c == '.' || c == '-'
}

fn digit_value(c: char) -> (r: u16)
    requires
        spec_is_digit(c),
    ensures
        r == spec_digit_value(c),
        r <= 9,
{
    (c as u32 - '0' as u32) as u16
}

/// Reads the creation date out of a dated index name: a word character, a
/// run of name characters, a dash, and a valid `YYYY.MM.DD` date; any other
/// name carries no date.
pub fn created_date(index: &str) -> (r: Option<Date>)
    ensures
        r == spec_created_date(index@),
{
    let n = index.unicode_len();
    if n < 13 {
        return None;
    }
    if !is_word_char(index.get_char(0)) {
        return None;
    }
    let mut i: usize = 1;
    while i < n - 11
        invariant
            1 <= i <= n - 11,
            n == index@.len(),
            n >= 13,
            forall|j: int| 1 <= j < i ==> spec_is_name_char(#[trigger] index@[j]),
        decreases n - 11 - i,
    {
        if !is_name_char(index.get_char(i)) {
            return None;
        }
        i += 1;
    }
    if index.get_char(n - 11) != '-' {
        return None;
    }
    let p = n - 10;
    let c0 = index.get_char(p);
    let c1 = index.get_char(p + 1);
    let c2 = index.get_char(p + 2);
    let c3 = index.get_char(p + 3);
    let d4 = index.get_char(p + 4);
    let c5 = index.get_char(p + 5);
    let c6 = index.get_char(p + 6);
    let d7 = index.get_char(p + 7);
    let c8 = index.get_char(p + 8);
    let c9 = index.get_char(p + 9);
    if !(c0 >= '0' && c0 <= '9') || !(c1 >= '0' && c1 <= '9') || !(c2 >= '0' && c2 <= '9') || !(c3
        >= '0' && c3 <= '9') {
        return None;
    }
    if d4 != '.' {
        return None;
    }
    if !(c5 >= '0' && c5 <= '9') || !(c6 >= '0' && c6 <= '9') {
        return None;
    }
    if d7 != '.' {
        return None;
    }
    if !(c8 >= '0' && c8 <= '9') || !(c9 >= '0' && c9 <= '9') {
        return None;
    }
    let year = 1000 * digit_value(c0) + 100 * digit_value(c1) + 10 * digit_value(c2) + digit_value(
        c3,
    );
    let month = (10 * digit_value(c5) + digit_value(c6)) as u8;
    let day = (10 * digit_value(c8) + digit_value(c9)) as u8;
    proof {
        assert(spec_index_shape(index@));
        assert(spec_index_date(index@) == (Date { year, month, day }));
    }
    if month < 1 || month > 12 {
        return None;
    }
    if day < 1 || day > days_in_month(year, month) {
        return None;
    }
    Some(Date { year, month, day })
}

/// The daily stat index: `stat-YYYY.MM.DD`, the same dating pattern the rest
/// of the product line uses, so one cleanup job covers them all.
pub fn index(now: &Date) -> (r: String)
    ensures
        r@ == "stat-"@ + spec_date_dots(*now),
{
    let mut s = "stat-".to_owned();
    let d = format_date_dots(now);
    s.append(d.as_str());
    proof {
        assert(s@ =~= "stat-"@ + spec_date_dots(*now));
    }
    s
}

/// The daily action-log index: `action-YYYY.MM.DD`.
pub fn action_index(now: &Date) -> (r: String)
    ensures
        r@ == "action-"@ + spec_date_dots(*now),
{
    let mut s = "action-".to_owned();
    let d = format_date_dots(now);
    s.append(d.as_str());
    proof {
        assert(s@ =~= "action-"@ + spec_date_dots(*now));
    }
    s
}

/// The daily trace index: `trace-YYYY.MM.DD`.
pub fn trace_index(now: &Date) -> (r: String)
    ensures
        r@ == "trace-"@ + spec_date_dots(*now),
{
    let mut s = "trace-".to_owned();
    let d = format_date_dots(now);
    s.append(d.as_str());
    proof {
        assert(s@ =~= "trace-"@ + spec_date_dots(*now));
    }
    s
}

/// What the cleanup job does with one dated index.
#[derive(Clone, Copy, PartialEq, Eq, Structural, Debug)]
pub enum RetentionAction {
    Delete,
    Close,
    Keep,
}

/// The retention policy: an index over thirty days old is deleted; one over
/// seven days old that is still open is closed; every other index is kept.
pub fn index_retention(days_old: i64, state: &IndexState) -> (r: RetentionAction)
    ensures
        days_old > 30 ==> r == RetentionAction::Delete,
        days_old <= 30 && days_old > 7 && state == IndexState::Open ==> r == RetentionAction::Close,
        days_old <= 30 && (days_old <= 7 || state == IndexState::Close) ==> r
            == RetentionAction::Keep,
{
    if days_old > 30 {
        RetentionAction::Delete
    } else if days_old > 7 && (match state {
        IndexState::Open => true,
        IndexState::Close => false,
    }) {
        RetentionAction::Close
    } else {
        RetentionAction::Keep
    }
}

/// One bulk-index frame per document: an action line naming the index and the
/// document id, then the document source, each on its own line.
pub open spec fn spec_bulk_body(index: Seq<char>, docs: Seq<(String, String)>) -> Seq<char>
    decreases docs.len(),
{
    if docs.len() == 0 {
        Seq::empty()
    } else {
        spec_bulk_body(index, docs.drop_last()) + "{\"index\":{\"_index\":\""@ + index
            + "\",\"_id\":\""@ + docs.last().0@ + "\"}}\n"@ + docs.last().1@ + "\n"@
    }
}

/// Builds the newline-delimited body of one bulk-index call from the
/// documents' ids and serialized sources.
pub fn bulk_index_body(index: &str, documents: &Vec<(String, String)>) -> (r: String)
    ensures
        r@ == spec_bulk_body(index@, documents@),
{
    let mut body = String::new();
    let mut i: usize = 0;
    proof {
        assert(documents@.take(0) =~= Seq::<(String, String)>::empty());
    }
    while i < documents.len()
        invariant
            i <= documents@.len(),
            body@ == spec_bulk_body(index@, documents@.take(i as int)),
        decreases documents@.len() - i,
    {
        body.append("{\"index\":{\"_index\":\"");
        body.append(index);
        body.append("\",\"_id\":\"");
        body.append(documents[i].0.as_str());
        body.append("\"}}\n");
        body.append(documents[i].1.as_str());
        body.append("\n");
        proof {
            assert(documents@.take(i + 1).drop_last() =~= documents@.take(i as int));
            assert(documents@.take(i + 1).last() == documents@[i as int]);
            assert(body@ =~= spec_bulk_body(index@, documents@.take(i + 1)));
        }
        i += 1;
    }
    proof {
        assert(documents@.take(documents@.len() as int) =~= documents@);
    }
    body
}

/// The request that installs an index template: `PUT
/// {uri}/_index_template/{name}` with the template as a JSON body.
pub fn put_index_template_request(uri: &str, name: &str, template: String) -> (r: HttpRequest)
    ensures
        r.method == HttpMethod::PUT,
        r.url@ == uri@ + "/_index_template/"@ + name@,
        r.body == Some(template),
        r.headers@.len() == 1 && r.headers@[0].0@ == "content-type"@ && r.headers@[0].1@
            == "application/json"@,
{
    let mut url = uri.to_owned();
    url.append("/_index_template/");
    url.append(name);
    proof {
        assert(url@ =~= uri@ + "/_index_template/"@ + name@);
    }
    let mut request = HttpRequest::new(HttpMethod::PUT, url);
    request.body(template, "application/json".to_owned());
    proof {
        assert(request.headers@[0] == request.headers@.last());
    }
    request
}

/// The request of one bulk-index call: `POST {uri}/_bulk` with the
/// newline-delimited body.
pub fn bulk_index_request(uri: &str, body: String) -> (r: HttpRequest)
    ensures
        r.method == HttpMethod::POST,
        r.url@ == uri@ + "/_bulk"@,
        r.body == Some(body),
        r.headers@.len() == 1 && r.headers@[0].0@ == "content-type"@ && r.headers@[0].1@
            == "application/json"@,
{
    let mut url = uri.to_owned();
    url.append("/_bulk");
    proof {
        assert(url@ =~= uri@ + "/_bulk"@);
    }
    let mut request = HttpRequest::new(HttpMethod::POST, url);
    request.body(body, "application/json".to_owned());
    proof {
        assert(request.headers@[0] == request.headers@.last());
    }
    request
}

/// The request that reads the cluster state.
pub fn cluster_state_request(uri: &str) -> (r: HttpRequest)
    ensures
        r.method == HttpMethod::PUT,
        r.url@ == uri@ + "/_cluster/state"@,
        r.body is None,
        r.headers@.len() == 0,
{
    let mut url = uri.to_owned();
    url.append("/_cluster/state");
    proof {
        assert(url@ =~= uri@ + "/_cluster/state"@);
    }
    HttpRequest::new(HttpMethod::PUT, url)
}

/// The request that closes an index: `POST {uri}/{index}/_close`.
pub fn close_index_request(uri: &str, index_name: &str) -> (r: HttpRequest)
    ensures
        r.method == HttpMethod::POST,
        r.url@ == uri@ + "/"@ + index_name@ + "/_close"@,
        r.body is None,
        r.headers@.len() == 0,
{
    let mut url = uri.to_owned();
    url.append("/");
    url.append(index_name);
    url.append("/_close");
    proof {
        assert(url@ =~= uri@ + "/"@ + index_name@ + "/_close"@);
    }
    HttpRequest::new(HttpMethod::POST, url)
}

/// The request that deletes an index: `DELETE {uri}/{index}`.
pub fn delete_index_request(uri: &str, index_name: &str) -> (r: HttpRequest)
    ensures
        r.method == HttpMethod::DELETE,
        r.url@ == uri@ + "/"@ + index_name@,
        r.body is None,
        r.headers@.len() == 0,
{
    let mut url = uri.to_owned();
    url.append("/");
    url.append(index_name);
    proof {
        assert(url@ =~= uri@ + "/"@ + index_name@);
    }
    HttpRequest::new(HttpMethod::DELETE, url)
}

/// Judges a cluster call by its status: anything but 200 is a failure under
/// the given message.
pub fn require_status_ok(status: u16, message: String) -> (r: Result<(), Exception>)
    ensures
        r is Ok <==> status == 200,
        r matches Err(e) ==> e.severity == crate::exception::Severity::Error && e.message == message
            && e.code is None,
{
    if status == 200 {
        Ok(())
    } else {
        Err(Exception::error(message))
    }
}

} // verus!
