use vstd::prelude::*;
use crate::error::{ClientError, ExtractError};
use crate::text::{occurs_at, pattern_at, str_eq};
use vstd::string::StrSliceExecFns;

verus! {

/// The kind of a discovered account, inferred from which URL pattern its
/// anchor matched, not from any field of the anchor itself.
#[derive(Debug, PartialEq, Eq, Structural, Clone, Copy)]
pub enum AccountKind {
    Banking,
    Savings,
    Trading,
    Loans,
    Unknown,
}

/// A discovered account: an opaque id slug and the kind its anchor matched.
#[derive(Debug)]
pub struct Account {
    pub id: String,
    pub kind: AccountKind,
}

pub struct AccountView {
    pub id: Seq<char>,
    pub kind: AccountKind,
}

impl View for Account {
    type V = AccountView;

    open spec fn view(&self) -> AccountView {
        AccountView { id: self.id@, kind: self.kind }
    }
}

impl Clone for Account {
    fn clone(&self) -> (r: Self)
        ensures
            r@ == self@,
    {
        Account { id: self.id.clone(), kind: self.kind }
    }
}

/// The opening of an account anchor in the overview markup.
pub open spec fn spec_anchor_open() -> Seq<char> {
    "<a href=\""@
}

/// An anchor `<a href="H">` stands at position `i` of `s` with href `h`:
/// the opening at `i`, the quote-free href right after it, then `">`.
pub open spec fn anchor_at(s: Seq<char>, i: int, h: Seq<char>) -> bool {
    let start = i + spec_anchor_open().len();
    &&& occurs_at(s, spec_anchor_open(), i)
    &&& start + h.len() + 2 <= s.len()
    &&& h == s.subrange(start, start + h.len())
    &&& forall|k: int| start <= k < start + h.len() ==> s[k] != '"'
    &&& s[start + h.len()] == '"'
    &&& s[start + h.len() + 1] == '>'
}

pub open spec fn is_slug_char(c: char) -> bool {
    ('a' as int <= c as int && c as int <= 'z' as int) || ('0' as int <= c as int && c as int
        <= '9' as int)
}

/// `h` splits at `m` into a prefix, the literal `/s-`, and a non-empty
/// all-slug id that runs to the end of the href.
pub open spec fn slug_split_at(h: Seq<char>, m: int) -> bool {
    &&& 0 <= m
    &&& m + 3 < h.len()
    &&& h.subrange(m, m + 3) == "/s-"@
    &&& forall|k: int| m + 3 <= k < h.len() ==> is_slug_char(h[k])
}

/// An href names an account when it ends in `/s-` followed by a non-empty
/// lowercase-alphanumeric id.
pub open spec fn href_matches(h: Seq<char>) -> bool {
    exists|m: int| slug_split_at(h, m)
}

/// `id` is the account id of the href `h`: the text after its final `/s-`.
pub open spec fn href_id(h: Seq<char>, id: Seq<char>) -> bool {
    exists|m: int| slug_split_at(h, m) && id == h.subrange(m + 3, h.len() as int)
}

/// The fixed overview path that anchors of each typed account kind carry.
pub open spec fn spec_kind_path(kind: AccountKind) -> Seq<char> {
    match kind {
        AccountKind::Banking => "/compte-bancaire/boursorama-banque/gerer"@,
        AccountKind::Savings => "/epargne/assurance-vie/contrat-boursorama-vie/gerer"@,
        AccountKind::Trading => "/compte-titres/pea/gerer"@,
        AccountKind::Loans => "/credit/immobilier/gerer"@,
        AccountKind::Unknown => ""@,
    }
}

/// `h` is exactly the typed pattern of `kind`: that kind's fixed path,
/// then `/s-` and the id.
pub open spec fn href_has_kind(h: Seq<char>, kind: AccountKind) -> bool {
    let p = spec_kind_path(kind);
    &&& h.len() > p.len()
    &&& h.subrange(0, p.len() as int) == p
    &&& slug_split_at(h, p.len() as int)
}

/// The kind of a matching href. A typed pattern wins over the generic
/// `/s-` fallback by design; an href no typed pattern claims is `Unknown`.
pub open spec fn href_kind(h: Seq<char>) -> AccountKind {
    if href_has_kind(h, AccountKind::Banking) {
        AccountKind::Banking
    } else if href_has_kind(h, AccountKind::Savings) {
        AccountKind::Savings
    } else if href_has_kind(h, AccountKind::Trading) {
        AccountKind::Trading
    } else if href_has_kind(h, AccountKind::Loans) {
        AccountKind::Loans
    } else {
        AccountKind::Unknown
    }
}

/// An href splits around `/s-` in at most one way: the id admits no `/`,
/// so only the last `/s-` can open it.
pub proof fn lemma_slug_split_unique(h: Seq<char>, m1: int, m2: int)
    requires
        slug_split_at(h, m1),
        slug_split_at(h, m2),
    ensures
        m1 == m2,
{
    reveal_strlit("/s-");
    if m1 < m2 {
        assert(h.subrange(m2, m2 + 3)[0] == h[m2]);
        assert(h.subrange(m1, m1 + 3)[1] == h[m1 + 1]);
        assert(h.subrange(m1, m1 + 3)[2] == h[m1 + 2]);
    } else if m2 < m1 {
        assert(h.subrange(m1, m1 + 3)[0] == h[m1]);
        assert(h.subrange(m2, m2 + 3)[1] == h[m2 + 1]);
        assert(h.subrange(m2, m2 + 3)[2] == h[m2 + 2]);
    }
}

/// A split can only open at the last `/` of the href: the id admits none.
proof fn lemma_split_is_last_slash(h: Seq<char>, j: int)
    requires
        0 <= j < h.len(),
        h[j] == '/',
        forall|k: int| j < k < h.len() ==> h[k] != '/',
    ensures
        forall|m: int| slug_split_at(h, m) ==> m == j,
{
    reveal_strlit("/s-");
    assert forall|m: int| slug_split_at(h, m) implies m == j by {
        assert(h.subrange(m, m + 3)[0] == h[m]);
        if m < j {
            assert(h.subrange(m, m + 3)[1] == h[m + 1]);
            assert(h.subrange(m, m + 3)[2] == h[m + 2]);
            if j >= m + 3 {
                assert(is_slug_char(h[j]));
            }
        }
    }
}

/// The last `/` of `h`, if any.
fn find_last_slash(h: &str) -> (r: Option<usize>)
    ensures
        match r {
            Some(j) => j < h@.len() && h@[j as int] == '/' && forall|k: int|
                j < k < h@.len() ==> h@[k] != '/',
            None => forall|k: int| 0 <= k < h@.len() ==> h@[k] != '/',
        },
{
    let n = h.unicode_len();
    let mut last: Option<usize> = None;
    let mut i: usize = 0;
    while i < n
        invariant
            n == h@.len(),
            i <= n,
            match last {
                Some(j) => j < i && h@[j as int] == '/' && forall|k: int|
                    j < k < i ==> h@[k] != '/',
                None => forall|k: int| 0 <= k < i ==> h@[k] != '/',
            },
        decreases n - i,
    {
        if h.get_char(i) == '/' {
            last = Some(i);
        }
        i += 1;
    }
    last
}

/// Classify one href: the position of its `/s-` split and its kind, or
/// nothing when it does not name an account.
fn classify_href(h: &str) -> (r: Option<(usize, AccountKind)>)
    ensures
        match r {
            Some(p) => slug_split_at(h@, p.0 as int) && href_kind(h@) == p.1,
            None => !href_matches(h@),
        },
{
    let n = h.unicode_len();
    let j = match find_last_slash(h) {
        None => {
            proof {
                reveal_strlit("/s-");
                assert forall|m: int| !slug_split_at(h@, m) by {
                    if slug_split_at(h@, m) {
                        assert(h@.subrange(m, m + 3)[0] == h@[m]);
                    }
                }
            }
            return None;
        },
        Some(j) => j,
    };
    proof {
        lemma_split_is_last_slash(h@, j as int);
    }
    if n - j < 4 {
        proof {
            assert forall|m: int| !slug_split_at(h@, m) by {
                if slug_split_at(h@, m) {
                    lemma_split_is_last_slash(h@, j as int);
                    assert(m == j as int);
                }
            }
        }
        return None;
    }
    if h.get_char(j + 1) != 's' || h.get_char(j + 2) != '-' {
        proof {
            reveal_strlit("/s-");
            assert forall|m: int| !slug_split_at(h@, m) by {
                if slug_split_at(h@, m) {
                    lemma_split_is_last_slash(h@, j as int);
                    assert(m == j as int);
                    assert(h@.subrange(m, m + 3)[1] == h@[m + 1]);
                    assert(h@.subrange(m, m + 3)[2] == h@[m + 2]);
                }
            }
        }
        return None;
    }
    let mut k: usize = j + 3;
    while k < n
        invariant
            n == h@.len(),
            j + 3 <= k <= n,
            j < n,
            h@[j as int] == '/',
            forall|t: int| j < t < n ==> h@[t] != '/',
            forall|t: int| j + 3 <= t < k ==> is_slug_char(h@[t]),
        decreases n - k,
    {
        let c = h.get_char(k);
        let u = c as u32;
        let is_slug = (u >= 97 && u <= 122) || (u >= 48 && u <= 57);
        if !is_slug {
            proof {
                assert(!is_slug_char(h@[k as int]));
                assert forall|m: int| !slug_split_at(h@, m) by {
                    if slug_split_at(h@, m) {
                        lemma_split_is_last_slash(h@, j as int);
                        assert(m == j as int);
                        assert(is_slug_char(h@[k as int]));
                    }
                }
            }
            return None;
        }
        k += 1;
    }
    proof {
        reveal_strlit("/s-");
        assert(h@.subrange(j as int, j + 3) =~= "/s-"@);
        assert(slug_split_at(h@, j as int));
    }
    let kind = if check_kind_path(h, "/compte-bancaire/boursorama-banque/gerer", j) {
        AccountKind::Banking
    } else if check_kind_path(h, "/epargne/assurance-vie/contrat-boursorama-vie/gerer", j) {
        AccountKind::Savings
    } else if check_kind_path(h, "/compte-titres/pea/gerer", j) {
        AccountKind::Trading
    } else if check_kind_path(h, "/credit/immobilier/gerer", j) {
        AccountKind::Loans
    } else {
        AccountKind::Unknown
    };
    Some((j, kind))
}

/// Whether `h` opens with `path` and splits right after it, i.e. matches
/// that typed pattern, given that `j` is `h`'s only split position.
fn check_kind_path(h: &str, path: &str, j: usize) -> (b: bool)
    requires
        slug_split_at(h@, j as int),
    ensures
        b == (h@.len() > path@.len() && h@.subrange(0, path@.len() as int) == path@
            && slug_split_at(h@, path@.len() as int)),
{
    let plen = path.unicode_len();
    let n = h.unicode_len();
    if plen != j {
        proof {
            if slug_split_at(h@, plen as int) {
                lemma_slug_split_unique(h@, plen as int, j as int);
            }
        }
        return false;
    }
    if pattern_at(h, path, 0) {
        proof {
            assert(h@.subrange(0, plen as int) =~= h@.subrange(0 as int, 0 + plen as int));
        }
        true
    } else {
        proof {
            assert(h@.subrange(0 as int, 0 + plen as int) =~= h@.subrange(0, plen as int));
        }
        false
    }
}

/// `acc` represents every matching anchor of `s`: each one's id stands in
/// the list.
pub open spec fn accounts_complete(s: Seq<char>, acc: Seq<Account>) -> bool {
    forall|i: int, h: Seq<char>, m: int|
        anchor_at(s, i, h) && slug_split_at(h, m) ==> exists|j: int|
            0 <= j < acc.len() && acc[j].id@ == h.subrange(m + 3, h.len() as int)
}

/// Every entry of `acc` comes from a matching anchor of `s`, with the kind
/// that anchor's href carries.
pub open spec fn accounts_sound(s: Seq<char>, acc: Seq<Account>) -> bool {
    forall|j: int| #![trigger acc[j]] 0 <= j < acc.len() ==> exists|i: int, h: Seq<char>|
        #[trigger] anchor_at(s, i, h) && href_id(h, acc[j].id@) && acc[j].kind == href_kind(h)
}

pub open spec fn accounts_distinct(acc: Seq<Account>) -> bool {
    forall|j: int, k: int| 0 <= j < k < acc.len() ==> acc[j].id@ != acc[k].id@
}

/// `acc` is an account discovery pass over `s`: sound, duplicate-free and
/// complete.
pub open spec fn accounts_extraction(s: Seq<char>, acc: Seq<Account>) -> bool {
    &&& accounts_sound(s, acc)
    &&& accounts_distinct(acc)
    &&& accounts_complete(s, acc)
}

/// Whether some entry of `accs` already carries this id.
fn holds_id(accs: &Vec<Account>, id: &String) -> (r: bool)
    ensures
        r == exists|j: int| 0 <= j < accs@.len() && accs@[j].id@ == id@,
{
    let mut t: usize = 0;
    while t < accs.len()
        invariant
            t <= accs@.len(),
            forall|j: int| 0 <= j < t ==> accs@[j].id@ != id@,
        decreases accs@.len() - t,
    {
        if accs[t].id.eq(id) {
            proof {
                assert(accs@[t as int].id@ == id@);
            }
            return true;
        }
        t += 1;
    }
    false
}

/// Discover accounts in the overview markup: every anchor whose href ends
/// in `/s-<id>`, each id once (the first anchor in document order wins and
/// sets the kind), typed URL patterns winning over the generic fallback.
/// A page with no matching anchor at all is a layout failure, not an empty
/// account list: the two must stay distinguishable.
pub fn extract_account_ids(res: &str) -> (r: Result<Vec<Account>, ExtractError>)
    ensures
        match r {
            Ok(v) => v@.len() > 0 && accounts_extraction(res@, v@),
            Err(e) => e == ExtractError::NotFound && accounts_extraction(res@, Seq::empty()),
        },
{
    let n = res.unicode_len();
    let open_len = "<a href=\"".unicode_len();
    let mut out: Vec<Account> = Vec::new();
    let mut i: usize = 0;
    while i < n
        invariant
            n == res@.len(),
            i <= n,
            open_len == spec_anchor_open().len(),
            accounts_sound(res@, out@),
            accounts_distinct(out@),
            forall|i2: int, h: Seq<char>, m: int|
                i2 < i && anchor_at(res@, i2, h) && slug_split_at(h, m) ==> exists|j: int|
                    0 <= j < out@.len() && out@[j].id@ == h.subrange(m + 3, h.len() as int),
        decreases n - i,
    {
        if open_len <= n - i && pattern_at(res, "<a href=\"", i) {
            process_anchor(res, i, open_len, &mut out);
        }
        i += 1;
    }
    if out.len() == 0 {
        proof {
            assert forall|i2: int, h: Seq<char>, m: int|
                !(anchor_at(res@, i2, h) && slug_split_at(h, m)) by {
                if anchor_at(res@, i2, h) && slug_split_at(h, m) {
                    reveal_strlit("<a href=\"");
                    assert(0 <= i2 < n);
                    assert(exists|j: int|
                        0 <= j < out@.len() && out@[j].id@ == h.subrange(m + 3, h.len() as int));
                }
            }
        }
        Err(ExtractError::NotFound)
    } else {
        proof {
            assert forall|i2: int, h: Seq<char>, m: int|
                anchor_at(res@, i2, h) && slug_split_at(h, m) implies exists|j: int|
                    0 <= j < out@.len() && out@[j].id@ == h.subrange(m + 3, h.len() as int) by {
                reveal_strlit("<a href=\"");
                assert(0 <= i2 < n);
            }
        }
        Ok(out)
    }
}

/// Handle one anchor opening found at `i`: read its href, classify it, and
/// record its id if it matches and is new.
fn process_anchor(res: &str, i: usize, open_len: usize, out: &mut Vec<Account>)
    requires
        res@.len() <= usize::MAX,
        open_len == spec_anchor_open().len(),
        i + open_len <= res@.len(),
        occurs_at(res@, spec_anchor_open(), i as int),
        accounts_sound(res@, old(out)@),
        accounts_distinct(old(out)@),
    ensures
        accounts_sound(res@, final(out)@),
        accounts_distinct(final(out)@),
        forall|h: Seq<char>, m: int|
            anchor_at(res@, i as int, h) && slug_split_at(h, m) ==> exists|j: int|
                0 <= j < final(out)@.len() && final(out)@[j].id@ == h.subrange(
                    m + 3,
                    h.len() as int,
                ),
        forall|j: int| 0 <= j < old(out)@.len() ==> final(out)@[j] == old(out)@[j],
        old(out)@.len() <= final(out)@.len(),
{
    let n = res.unicode_len();
    let start = i + open_len;
    let q = match crate::text::find_char_from(res, '"', start) {
        None => {
            proof {
                crate::text::lemma_first_char_from_props(res@, '"', start as int);
                assert forall|h: Seq<char>| !anchor_at(res@, i as int, h) by {
                    if anchor_at(res@, i as int, h) {
                        assert(res@[start + h.len()] == '"');
                    }
                }
            }
            return ;
        },
        Some(q) => q,
    };
    proof {
        crate::text::lemma_first_char_from_props(res@, '"', start as int);
    }
    // The href of any anchor at `i` is exactly the text up to the first
    // quote: its own characters exclude the quote that ends it.
    proof {
        assert forall|h: Seq<char>|
            anchor_at(res@, i as int, h) implies h == res@.subrange(start as int, q as int) by {
            if start + h.len() < q {
                assert(res@[start + h.len()] == '"');
                assert(res@[start + h.len()] != '"');
            } else if q < start + h.len() {
                assert(res@[q as int] != '"');
            }
            assert(h.len() == q - start);
            assert(h =~= res@.subrange(start as int, q as int));
        }
    }
    if q + 1 >= n || res.get_char(q + 1) != '>' {
        proof {
            assert forall|h: Seq<char>| !anchor_at(res@, i as int, h) by {
                if anchor_at(res@, i as int, h) {
                    assert(h.len() == q - start);
                    assert(res@[start + h.len() + 1] == '>');
                }
            }
        }
        return ;
    }
    let href = res.substring_char(start, q);
    let (m, kind) = match classify_href(href) {
        None => {
            proof {
                assert forall|h: Seq<char>, m: int|
                    !(anchor_at(res@, i as int, h) && slug_split_at(h, m)) by {
                    if anchor_at(res@, i as int, h) && slug_split_at(h, m) {
                        assert(h == href@);
                        assert(href_matches(href@));
                    }
                }
            }
            return ;
        },
        Some(p) => p,
    };
    let id = res.substring_char(start + m + 3, q).to_owned();
    proof {
        assert(id@ =~= href@.subrange(m + 3, href@.len() as int));
    }
    let ghost hh = href@;
    proof {
        // The anchor at `i` with href `hh` is real: establish it once for
        // both the soundness witness and the completeness step.
        assert(hh == res@.subrange(start as int, q as int));
        assert(forall|k: int| start <= k < start + hh.len() ==> res@[k] != '"');
        assert(res@[start + hh.len()] == '"');
        assert(res@[start + hh.len() + 1] == '>');
        assert(anchor_at(res@, i as int, hh));
        assert(href_id(hh, id@));
    }
    if !holds_id(out, &id) {
        let a = Account { id, kind };
        out.push(a);
        proof {
            assert forall|j: int| #![trigger out@[j]] 0 <= j < out@.len() implies exists|
                i2: int,
                h: Seq<char>,
            |
                #[trigger] anchor_at(res@, i2, h) && href_id(h, out@[j].id@) && out@[j].kind
                    == href_kind(h) by {
                if j < out@.len() - 1 {
                    assert(accounts_sound(res@, old(out)@));
                    assert(out@[j] == old(out)@[j]);
                } else {
                    assert(anchor_at(res@, i as int, hh) && href_id(hh, out@[j].id@)
                        && out@[j].kind == href_kind(hh));
                }
            }
            assert(out@[out@.len() - 1].id@ == id@);
        }
    }
    proof {
        assert forall|h: Seq<char>, m2: int|
            anchor_at(res@, i as int, h) && slug_split_at(h, m2) implies exists|j: int|
                0 <= j < out@.len() && out@[j].id@ == h.subrange(m2 + 3, h.len() as int) by {
            assert(h == hh);
            lemma_slug_split_unique(h, m2, m as int);
            assert(h.subrange(m2 + 3, h.len() as int) == id@);
            assert(exists|j: int| 0 <= j < out@.len() && out@[j].id@ == id@);
        }
    }
}

/// Whether an account passes the kind filter; no filter admits all.
pub open spec fn kind_matches(a: Account, f: Option<AccountKind>) -> bool {
    match f {
        None => true,
        Some(k) => a.kind == k,
    }
}

/// The subsequence of accounts that pass the kind filter, in order.
pub open spec fn filtered_accounts(s: Seq<Account>, f: Option<AccountKind>) -> Seq<Account>
    decreases s.len(),
{
    if s.len() == 0 {
        Seq::empty()
    } else {
        let rest = filtered_accounts(s.drop_first(), f);
        if kind_matches(s[0], f) {
            seq![s[0]] + rest
        } else {
            rest
        }
    }
}

/// Keep the accounts that pass the kind filter, in discovery order.
pub fn filter_accounts(accounts: Vec<Account>, f: Option<AccountKind>) -> (r: Vec<Account>)
    ensures
        r@ == filtered_accounts(accounts@, f),
{
    let ghost orig = accounts@;
    let mut rest = accounts;
    let mut out: Vec<Account> = Vec::new();
    while rest.len() > 0
        invariant
            out@ + filtered_accounts(rest@, f) == filtered_accounts(orig, f),
        decreases rest@.len(),
    {
        let ghost rest_before = rest@;
        let ghost out_before = out@;
        let a = rest.remove(0);
        proof {
            assert(rest@ =~= rest_before.drop_first());
        }
        if match f {
            None => true,
            Some(k) => a.kind == k,
        } {
            out.push(a);
            proof {
                assert(kind_matches(rest_before[0], f));
                assert(out@ + filtered_accounts(rest@, f) =~= out_before + (seq![rest_before[0]]
                    + filtered_accounts(rest@, f)));
            }
        } else {
            proof {
                assert(!kind_matches(rest_before[0], f));
            }
        }
    }
    proof {
        assert(out@ + filtered_accounts(rest@, f) =~= out@);
    }
    out
}

/// Find the account carrying `id` in a freshly discovered list; its
/// absence is the typed failure `AccountNotFound`, never an exception.
pub fn find_account(accounts: &Vec<Account>, id: &str) -> (r: Result<usize, ClientError>)
    ensures
        match r {
            Ok(j) => {
                &&& j < accounts@.len()
                &&& accounts@[j as int].id@ == id@
                &&& forall|k: int| 0 <= k < j ==> accounts@[k].id@ != id@
            },
            Err(e) => e == ClientError::AccountNotFound && forall|k: int|
                0 <= k < accounts@.len() ==> accounts@[k].id@ != id@,
        },
{
    let mut j: usize = 0;
    while j < accounts.len()
        invariant
            j <= accounts@.len(),
            forall|k: int| 0 <= k < j ==> accounts@[k].id@ != id@,
        decreases accounts@.len() - j,
    {
        if str_eq(accounts[j].id.as_str(), id) {
            return Ok(j);
        }
        j += 1;
    }
    Err(ClientError::AccountNotFound)
}

} // verus!
