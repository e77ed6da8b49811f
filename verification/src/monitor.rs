//! The monitor pages: access by password, and paging through the request log.
use vstd::prelude::*;

use crate::error::{concat_text, owned};
use crate::text::chars_of;

verus! {

/// The submitted login form.
pub struct LoginForm {
    password: String,
}

impl LoginForm {
    /// A form carrying `password`.
    pub fn new(password: String) -> (r: LoginForm)
        ensures
            r.password() == password,
    {
        LoginForm { password }
    }

    /// The password that was entered.
    pub closed spec fn password(&self) -> String {
        self.password
    }

    /// The password that was entered.
    pub fn entered_password(&self) -> (r: &String)
        ensures
            *r == self.password(),
    {
        &self.password
    }
}

/// Paging, search and filters of the request log.
pub struct QueryParams {
    /// The page, from 1.
    pub page: u32,
    /// Records per page.
    pub page_size: u32,
    /// Text to look for in client addresses.
    pub search: String,
    /// `sign`, `verify`, or empty for both.
    pub filter_type: String,
    /// `success`, `failed`, or empty for both.
    pub filter_result: String,
}

/// The page shown when none is asked for.
pub fn default_page() -> (r: u32)
    ensures
        r == 1,
{
    1
}

/// The page size used when none is asked for.
pub fn default_page_size() -> (r: u32)
    ensures
        r == 20,
{
    20
}

/// Whether the monitor opens: exactly when the entered password is the configured one.
pub fn password_accepted(entered: &String, configured: &String) -> (r: bool)
    ensures
        r <==> entered@ == configured@,
{
    *entered == *configured
}

/// Where a login to the monitor leads.
pub enum LoginStep {
    /// The password is wrong: the error page shows this message, and nothing of the log is
    /// read.
    Refused(String),
    /// The password is right: the statistics and the asked page of the log are read.
    Admitted,
}

/// Decides a login to the monitor: with the configured password the log is read, with any other
/// the login is refused with the message "密码错误，请重新输入".
pub fn login_step(form: &LoginForm, configured: &String) -> (r: LoginStep)
    ensures
        form.password()@ == configured@ ==> r is Admitted,
        form.password()@ != configured@ ==> (r matches LoginStep::Refused(m) && m@
            == "密码错误，请重新输入"@),
{
    if password_accepted(form.entered_password(), configured) {
        LoginStep::Admitted
    } else {
        LoginStep::Refused(owned("密码错误，请重新输入"))
    }
}

/// Why a monitor page could not be shown.
pub enum MonitorFailure {
    /// The login page's template is missing.
    LoginPageMissing,
    /// The page for a refused login could not be rendered.
    LoginErrorPageRender,
    /// The monitor page could not be rendered.
    MonitorPageRender,
    /// The statistics could not be read; the database's message.
    Statistics(String),
    /// The asked page of the request log could not be read; the database's message.
    Records(String),
}

/// What the monitor shows in place of a page that could not be produced.
pub open spec fn monitor_failure_text(f: MonitorFailure) -> Seq<char> {
    match f {
        MonitorFailure::LoginPageMissing => "登录页面加载失败"@,
        MonitorFailure::LoginErrorPageRender => "登录错误页面渲染失败"@,
        MonitorFailure::MonitorPageRender => "监控页面渲染失败"@,
        MonitorFailure::Statistics(m) => "获取统计信息失败: "@ + m@,
        MonitorFailure::Records(m) => "获取请求记录失败: "@ + m@,
    }
}

impl MonitorFailure {
    /// The text shown in place of the page.
    pub fn text(&self) -> (r: String)
        ensures
            r@ == monitor_failure_text(*self),
    {
        match self {
            MonitorFailure::LoginPageMissing => owned("登录页面加载失败"),
            MonitorFailure::LoginErrorPageRender => owned("登录错误页面渲染失败"),
            MonitorFailure::MonitorPageRender => owned("监控页面渲染失败"),
            MonitorFailure::Statistics(m) => concat_text("获取统计信息失败: ", m.as_str()),
            MonitorFailure::Records(m) => concat_text("获取请求记录失败: ", m.as_str()),
        }
    }
}

/// The number of pages for `total` records at `page_size` per page, as the float formula
/// `ceil(total / page_size) as u32` gives it: the quotient rounded up, at most `u32::MAX`;
/// with a page size of 0, `u32::MAX` pages when there are records and none otherwise.
pub open spec fn pages_for(total: int, page_size: int) -> int {
    if page_size == 0 {
        if total > 0 {
            u32::MAX as int
        } else {
            0
        }
    } else {
        let q = (total + page_size - 1) / page_size;
        if q > u32::MAX {
            u32::MAX as int
        } else {
            q
        }
    }
}

/// The number of pages, for totals up to 2^53, where the float formula computes the rounded
/// quotient exactly.
pub fn total_pages(total: i64, page_size: u32) -> (r: u32)
    requires
        0 <= total <= 0x20_0000_0000_0000,
    ensures
        r == pages_for(total as int, page_size as int),
{
    if page_size == 0 {
        if total > 0 {
            u32::MAX
        } else {
            0
        }
    } else {
        let t = total as u64;
        let p = page_size as u64;
        let q = (t + p - 1) / p;
        if q > 0xffff_ffff {
            u32::MAX
        } else {
            q as u32
        }
    }
}

/// The first page number listed: two before the current page, but at least 1.
pub open spec fn window_start(page: int) -> int {
    if page > 2 {
        page - 2
    } else {
        1
    }
}

/// The last page number listed: four after the first, but at most the number of pages.
pub open spec fn window_end(page: int, total_pages: int) -> int {
    if window_start(page) + 4 > total_pages {
        total_pages
    } else {
        window_start(page) + 4
    }
}

/// The page numbers listed around the current page, in order.
pub open spec fn page_window(page: int, total_pages: int) -> Seq<u32> {
    let s = window_start(page);
    let e = window_end(page, total_pages);
    Seq::new(if e >= s { (e - s + 1) as nat } else { 0 }, |i: int| (s + i) as u32)
}

/// The page numbers to list: up to five, starting two before the current page.
pub fn page_numbers(page: u32, total_pages: u32) -> (r: Vec<u32>)
    requires
        page <= u32::MAX - 2,
    ensures
        r@ == page_window(page as int, total_pages as int),
{
    let start: u32 = if page > 2 {
        page - 2
    } else {
        1
    };
    let end: u32 = if start + 4 > total_pages {
        total_pages
    } else {
        start + 4
    };
    let mut r: Vec<u32> = Vec::new();
    if end >= start {
        let count: u32 = end - start + 1;
        let mut i: u32 = 0;
        while i < count
            invariant
                count == end - start + 1,
                end >= start,
                i <= count,
                r@ == Seq::new(i as nat, |k: int| (start + k) as u32),
            decreases count - i,
        {
            r.push(start + i);
            i = i + 1;
            assert(r@ =~= Seq::new(i as nat, |k: int| (start + k) as u32));
        }
    }
    assert(r@ =~= page_window(page as int, total_pages as int));
    r
}

/// Paging never lists more than five pages, lists them in order without gaps, never past
/// the last page, and lists the current page whenever that page exists.
pub proof fn lemma_page_window(page: int, total_pages: int)
    requires
        1 <= page,
        page + 2 <= u32::MAX,
        0 <= total_pages <= u32::MAX,
    ensures
        page_window(page, total_pages).len() <= 5,
        forall|i: int|
            0 <= i < page_window(page, total_pages).len() ==> #[trigger] page_window(
                page,
                total_pages,
            )[i] == window_start(page) + i && 1 <= page_window(page, total_pages)[i]
                <= total_pages,
        page <= total_pages ==> page_window(page, total_pages).contains(page as u32),
{
    let w = page_window(page, total_pages);
    if page <= total_pages {
        let i = page - window_start(page);
        assert(w[i] == page as u32);
    }
}

/// Enough pages: every record falls on one of them.
pub proof fn lemma_pages_cover(total: int, page_size: int)
    requires
        0 <= total,
        0 < page_size,
        (total + page_size - 1) / page_size <= u32::MAX,
    ensures
        pages_for(total, page_size) * page_size >= total,
        total > 0 ==> (pages_for(total, page_size) - 1) * page_size < total,
{
    let q = (total + page_size - 1) / page_size;
    assert(q * page_size >= total) by (nonlinear_arith)
        requires
            q == (total + page_size - 1) / page_size,
            0 < page_size,
            0 <= total,
    ;
    assert(total > 0 ==> (q - 1) * page_size < total) by (nonlinear_arith)
        requires
            q == (total + page_size - 1) / page_size,
            0 < page_size,
            0 <= total,
    ;
}

/// Whether an embedded file is a template: its name ends in `.html`.
pub fn is_template_file(name: &str) -> (r: bool)
    ensures
        r <==> (name@.len() >= ".html"@.len() && name@.subrange(
            name@.len() - ".html"@.len(),
            name@.len() as int,
        ) == ".html"@),
{
    let cs = chars_of(name);
    let suffix = chars_of(".html");
    let n = cs.len();
    let m = suffix.len();
    if n < m {
        return false;
    }
    let mut k: usize = 0;
    while k < m
        invariant
            n == cs@.len(),
            m == suffix@.len(),
            cs@ == name@,
            suffix@ == ".html"@,
            m <= n,
            k <= m,
            forall|l: int| 0 <= l < k ==> cs@[n - m + l] == suffix@[l],
        decreases m - k,
    {
        if cs[n - m + k] != suffix[k] {
            assert(cs@.subrange(n - m, n as int)[k as int] != suffix@[k as int]);
            return false;
        }
        k = k + 1;
    }
    assert(cs@.subrange(n - m, n as int) =~= suffix@);
    true
}

} // verus!
