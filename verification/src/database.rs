//! The request log: its records, and the SQL that searches, filters and pages through it.
use vstd::prelude::*;

use crate::error::{concat_text, owned};
use crate::text::{decimal, push_decimal};

verus! {

/// One logged signing or verification request.
pub struct RequestRecord {
    /// The record's id.
    pub id: i64,
    /// `sign` or `verify`.
    pub request_type: String,
    /// When the request came (RFC 3339, UTC).
    pub timestamp: String,
    /// The number of parameters.
    pub param_count: i32,
    /// `success` or `failed`.
    pub result: String,
    /// How long it took, in milliseconds.
    pub duration_ms: i64,
    /// The client's address.
    pub client_ip: String,
}

/// The conditions of a log query, each with its parameter: the client address contains
/// the search text, the type is the type filter, the result is the result filter; each
/// only when its text is not empty.
pub open spec fn query_filters(search: Seq<char>, filter_type: Seq<char>, filter_result: Seq<char>) -> Seq<(Seq<char>, Seq<char>)> {
    (if search.len() > 0 {
        seq![("client_ip LIKE ?"@, "%"@ + search + "%"@)]
    } else {
        Seq::empty()
    }) + (if filter_type.len() > 0 {
        seq![("request_type = ?"@, filter_type)]
    } else {
        Seq::empty()
    }) + (if filter_result.len() > 0 {
        seq![("result = ?"@, filter_result)]
    } else {
        Seq::empty()
    })
}

/// The parts joined by `sep`.
pub open spec fn join_with(parts: Seq<Seq<char>>, sep: Seq<char>) -> Seq<char>
    decreases parts.len(),
{
    if parts.len() == 0 {
        Seq::empty()
    } else if parts.len() == 1 {
        parts[0]
    } else {
        join_with(parts.drop_last(), sep) + sep + parts.last()
    }
}

/// `WHERE` and the conditions joined by `AND`, or nothing when there is no condition.
pub open spec fn where_clause_of(conditions: Seq<Seq<char>>) -> Seq<char> {
    if conditions.len() == 0 {
        Seq::empty()
    } else {
        "WHERE "@ + join_with(conditions, " AND "@)
    }
}

/// One condition gives `WHERE` and that condition.
pub proof fn lemma_where_single_condition(c: Seq<char>)
    ensures
        where_clause_of(seq![c]) == "WHERE "@ + c,
{
}

/// Each further condition is added with `AND`, however many came before: a record must
/// meet every condition.
pub proof fn lemma_where_further_condition(cs: Seq<Seq<char>>, c: Seq<char>)
    requires
        cs.len() > 0,
    ensures
        where_clause_of(cs.push(c)) == where_clause_of(cs) + " AND "@ + c,
{
    assert(cs.push(c).drop_last() =~= cs);
    assert(("WHERE "@ + join_with(cs, " AND "@)) + " AND "@ + c =~= "WHERE "@ + (join_with(
        cs,
        " AND "@,
    ) + " AND "@ + c));
}

/// The first record of a page: `(page - 1) * page_size`, page 0 counting as page 1.
pub open spec fn page_offset(page: int, page_size: int) -> int {
    (if page > 0 { page - 1 } else { 0 }) * page_size
}

/// The SQL of a log query and its parameters.
pub struct RequestQuery {
    /// The `WHERE` clause, or nothing.
    pub where_clause: String,
    /// The parameters of the conditions, in order.
    pub filter_params: Vec<String>,
    /// The number of records before the page.
    pub offset: u32,
    /// The statement that counts the matching records.
    pub count_sql: String,
    /// The statement that reads the page, newest first.
    pub data_sql: String,
    /// The parameters of that statement: the conditions', then the page size and offset.
    pub data_params: Vec<String>,
}

/// The texts of a vector of strings.
pub open spec fn texts(v: Seq<String>) -> Seq<Seq<char>> {
    v.map_values(|s: String| s@)
}

/// Builds the query for one page of the log with a search text and filters.
pub fn build_request_query(
    page: u32,
    page_size: u32,
    search: &str,
    filter_type: &str,
    filter_result: &str,
) -> (r: RequestQuery)
    requires
        page_offset(page as int, page_size as int) <= u32::MAX,
    ensures
        ({
            let f = query_filters(search@, filter_type@, filter_result@);
            &&& r.where_clause@ == where_clause_of(f.map_values(|c: (Seq<char>, Seq<char>)| c.0))
            &&& texts(r.filter_params@) == f.map_values(|c: (Seq<char>, Seq<char>)| c.1)
            &&& r.offset == page_offset(page as int, page_size as int)
            &&& r.count_sql@ == "SELECT COUNT(*) FROM requests "@ + r.where_clause@
            &&& r.data_sql@ == "SELECT id, request_type, timestamp, param_count, result, duration_ms, client_ip\n             FROM requests "@
                + r.where_clause@ + "\n             ORDER BY id DESC\n             LIMIT ? OFFSET ?"@
            &&& texts(r.data_params@) == texts(r.filter_params@).push(decimal(page_size as nat)).push(
                decimal(r.offset as nat),
            )
        }),
{
    let ghost f = query_filters(search@, filter_type@, filter_result@);
    let mut conditions: Vec<String> = Vec::new();
    let mut params: Vec<String> = Vec::new();
    if !search.is_empty() {
        conditions.push(owned("client_ip LIKE ?"));
        let mut p = owned("%");
        p.append(search);
        p.append("%");
        params.push(p);
    }
    let ghost f1 = if search@.len() > 0 {
        seq![("client_ip LIKE ?"@, "%"@ + search@ + "%"@)]
    } else {
        Seq::<(Seq<char>, Seq<char>)>::empty()
    };
    assert(texts(conditions@) =~= f1.map_values(|c: (Seq<char>, Seq<char>)| c.0));
    assert(texts(params@) =~= f1.map_values(|c: (Seq<char>, Seq<char>)| c.1));
    if !filter_type.is_empty() {
        conditions.push(owned("request_type = ?"));
        params.push(owned(filter_type));
    }
    let ghost f2 = f1 + if filter_type@.len() > 0 {
        seq![("request_type = ?"@, filter_type@)]
    } else {
        Seq::<(Seq<char>, Seq<char>)>::empty()
    };
    assert(texts(conditions@) =~= f2.map_values(|c: (Seq<char>, Seq<char>)| c.0));
    assert(texts(params@) =~= f2.map_values(|c: (Seq<char>, Seq<char>)| c.1));
    if !filter_result.is_empty() {
        conditions.push(owned("result = ?"));
        params.push(owned(filter_result));
    }
    assert(f =~= f2 + if filter_result@.len() > 0 {
        seq![("result = ?"@, filter_result@)]
    } else {
        Seq::<(Seq<char>, Seq<char>)>::empty()
    });
    assert(texts(conditions@) =~= f.map_values(|c: (Seq<char>, Seq<char>)| c.0));
    assert(texts(params@) =~= f.map_values(|c: (Seq<char>, Seq<char>)| c.1));
    let where_clause = if conditions.len() == 0 {
        String::new()
    } else {
        let joined = join_texts(&conditions, " AND ");
        concat_text("WHERE ", joined.as_str())
    };
    let offset: u32 = (if page > 0 {
        page - 1
    } else {
        0
    }) * page_size;
    let count_sql = concat_text("SELECT COUNT(*) FROM requests ", where_clause.as_str());
    let mut data_sql = owned(
        "SELECT id, request_type, timestamp, param_count, result, duration_ms, client_ip\n             FROM requests ",
    );
    data_sql.append(where_clause.as_str());
    data_sql.append("\n             ORDER BY id DESC\n             LIMIT ? OFFSET ?");
    let mut data_params: Vec<String> = Vec::new();
    let n = params.len();
    let mut i: usize = 0;
    while i < n
        invariant
            n == params@.len(),
            i <= n,
            texts(data_params@) == texts(params@).take(i as int),
        decreases n - i,
    {
        let ghost before = data_params@;
        let copy = owned(params[i].as_str());
        data_params.push(copy);
        assert(data_params@ == before.push(copy));
        assert(texts(data_params@) =~= texts(before).push(params@[i as int]@));
        assert(texts(params@).take(i + 1) =~= texts(params@).take(i as int).push(params@[i as int]@));
        i = i + 1;
    }
    assert(texts(params@).take(n as int) =~= texts(params@));
    let mut size_text = String::new();
    push_decimal(&mut size_text, page_size);
    data_params.push(size_text);
    let mut offset_text = String::new();
    push_decimal(&mut offset_text, offset);
    data_params.push(offset_text);
    assert(texts(data_params@) =~= texts(params@).push(decimal(page_size as nat)).push(
        decimal(offset as nat),
    ));
    RequestQuery {
        where_clause,
        filter_params: params,
        offset,
        count_sql,
        data_sql,
        data_params,
    }
}

/// The strings joined by `sep`.
pub fn join_texts(parts: &Vec<String>, sep: &str) -> (r: String)
    ensures
        r@ == join_with(texts(parts@), sep@),
{
    let n = parts.len();
    let mut r = String::new();
    let mut i: usize = 0;
    while i < n
        invariant
            n == parts@.len(),
            i <= n,
            r@ == join_with(texts(parts@).take(i as int), sep@),
        decreases n - i,
    {
        if i > 0 {
            r.append(sep);
        }
        r.append(parts[i].as_str());
        proof {
            let t = texts(parts@);
            assert(t.take(i + 1).drop_last() =~= t.take(i as int));
            assert(t.take(i + 1).last() == parts@[i as int]@);
            if i == 0 {
                assert(t.take(1) =~= seq![parts@[0]@]);
            }
        }
        i = i + 1;
    }
    assert(texts(parts@).take(n as int) =~= texts(parts@));
    r
}

/// The pattern that matches the timestamps of one day (`LIKE`): the date, then `%`.
pub fn day_pattern(day: &str) -> (r: String)
    ensures
        r@ == day@ + "%"@,
{
    concat_text(day, "%")
}

} // verus!
