//! Pattern-anchored extraction of structured data from rendered HTML pages.
//!
//! The crate locates an anchor element in a document from a two-group locator
//! pattern, walks the document tree along relation paths, cleans the extracted
//! text through a configurable pipeline, and turns price and market markup
//! into typed, numeric results.  A timed page cache avoids redundant fetches;
//! batch processing yields one outcome per requested symbol.

pub mod config;
pub mod frontend;
pub mod html;
pub mod num;
pub mod text;

use vstd::prelude::*;

use crate::config::{Config, Replace};
use crate::html::ext::replaced_of;
use crate::html::{ErrorKind, ParseError};
use crate::num::{spec_decimal_chars, Decimal};
use crate::text::{chars_to_string, keep_numeric, spec_keep_numeric, spec_replace, str_to_chars};

verus! {

/// The result of a price query: the symbol, its price, and the signed
/// percentage change (positive for up, negative for down).
#[derive(Debug)]
pub struct PriceResult {
    pub symbol: String,
    pub price: Decimal,
    pub change: Decimal,
}

impl PriceResult {
    /// The symbol and the price, tab-separated.
    pub fn to_string(&self) -> (r: String)
        ensures
            r@ == self.symbol@ + "\t"@ + spec_decimal_chars(
                self.price.negative,
                self.price.mantissa as nat,
                self.price.scale as nat,
            ),
    {
        let mut s = self.symbol.clone();
        s.append("\t");
        let dc = crate::num::decimal_to_chars(&self.price);
        let ds = chars_to_string(&dc);
        s.append(ds.as_str());
        s
    }
}

/// The result of a market query: one trading venue's row.
#[derive(Debug)]
pub struct MarketResult {
    pub source: String,
    pub pair: String,
    pub price: Decimal,
    pub volume: Decimal,
    pub volume_percent: Decimal,
}

/// `n` space characters.
pub open spec fn spec_spaces(n: nat) -> Seq<char>
    decreases n,
{
    if n == 0 {
        Seq::empty()
    } else {
        seq![' '] + spec_spaces((n - 1) as nat)
    }
}

/// `spec_spaces` grows by one space at the back as well as at the front.
proof fn lemma_spaces_snoc(n: nat)
    ensures
        spec_spaces(n) + seq![' '] == spec_spaces(n + 1),
    decreases n,
{
    if n == 0 {
        assert(spec_spaces(0) + seq![' '] =~= spec_spaces(1));
    } else {
        lemma_spaces_snoc((n - 1) as nat);
        assert(spec_spaces(n) + seq![' '] =~= seq![' '] + (spec_spaces((n - 1) as nat)
            + seq![' ']));
        assert(seq![' '] + spec_spaces(n) =~= spec_spaces(n + 1));
    }
}

/// The padding that fills a table column of width fifteen after text of
/// length `n`; nothing where the text already fills the column.
pub open spec fn spec_pad(n: nat) -> nat {
    if n < 15 {
        (15 - n) as nat
    } else {
        0
    }
}

impl MarketResult {
    /// A string of `i` spaces.
    pub fn get_spaces(i: usize) -> (r: String)
        ensures
            r@ == spec_spaces(i as nat),
    {
        let mut v: Vec<char> = Vec::new();
        let mut k: usize = 0;
        while k < i
            invariant
                k <= i,
                v@ == spec_spaces(k as nat),
            decreases i - k,
        {
            proof {
                lemma_spaces_snoc(k as nat);
            }
            v.push(' ');
            k += 1;
        }
        chars_to_string(&v)
    }

    /// The header line of the market table: five column titles, each padded
    /// to width fifteen.
    pub fn get_header() -> (r: String)
        ensures
            r@ == "Source"@ + spec_spaces(9) + "Pair"@ + spec_spaces(11) + "Price"@ + spec_spaces(
                10,
            ) + "Volume"@ + spec_spaces(9) + "Volume %"@ + spec_spaces(7),
    {
        let mut result = String::from_str("Source");
        let s1 = MarketResult::get_spaces(9);
        result.append(s1.as_str());
        result.append("Pair");
        let s2 = MarketResult::get_spaces(11);
        result.append(s2.as_str());
        result.append("Price");
        let s3 = MarketResult::get_spaces(10);
        result.append(s3.as_str());
        result.append("Volume");
        let s4 = MarketResult::get_spaces(9);
        result.append(s4.as_str());
        result.append("Volume %");
        let s5 = MarketResult::get_spaces(7);
        result.append(s5.as_str());
        result
    }

    /// One table row: venue, pair, price, volume and volume share, each but
    /// the last padded to width fifteen.
    pub fn to_row(&self) -> (r: String)
        ensures
            r@ == ({
                let p = spec_decimal_chars(
                    self.price.negative,
                    self.price.mantissa as nat,
                    self.price.scale as nat,
                );
                let v = spec_decimal_chars(
                    self.volume.negative,
                    self.volume.mantissa as nat,
                    self.volume.scale as nat,
                );
                let vp = spec_decimal_chars(
                    self.volume_percent.negative,
                    self.volume_percent.mantissa as nat,
                    self.volume_percent.scale as nat,
                );
                self.source@ + spec_spaces(spec_pad(self.source@.len())) + self.pair@ + spec_spaces(
                    spec_pad(self.pair@.len()),
                ) + p + spec_spaces(spec_pad(p.len())) + v + spec_spaces(spec_pad(v.len())) + vp
            }),
    {
        let mut result = self.source.clone();
        let sc = str_to_chars(self.source.as_str());
        let s1 = MarketResult::get_spaces(MarketResult::pad_width(sc.len()));
        result.append(s1.as_str());
        result.append(self.pair.as_str());
        let pc = str_to_chars(self.pair.as_str());
        let s2 = MarketResult::get_spaces(MarketResult::pad_width(pc.len()));
        result.append(s2.as_str());
        let p = crate::num::decimal_to_chars(&self.price);
        let ps = chars_to_string(&p);
        result.append(ps.as_str());
        let s3 = MarketResult::get_spaces(MarketResult::pad_width(p.len()));
        result.append(s3.as_str());
        let v = crate::num::decimal_to_chars(&self.volume);
        let vs = chars_to_string(&v);
        result.append(vs.as_str());
        let s4 = MarketResult::get_spaces(MarketResult::pad_width(v.len()));
        result.append(s4.as_str());
        let vp = crate::num::decimal_to_chars(&self.volume_percent);
        let vps = chars_to_string(&vp);
        result.append(vps.as_str());
        result
    }

    /// The column padding for text of length `n`.
    fn pad_width(n: usize) -> (r: usize)
        ensures
            r as nat == spec_pad(n as nat),
    {
        if n < 15 {
            15 - n
        } else {
            0
        }
    }
}

/// Strips every character that is not a digit or a dot.
pub fn cleanup_number(input: &String) -> (r: String)
    ensures
        r@ == spec_keep_numeric(input@),
{
    let v = str_to_chars(input.as_str());
    let kept = keep_numeric(&v);
    chars_to_string(&kept)
}

/// The text after stripping, in order, every pattern of `pats` from
/// position `i` on (each match replaced by nothing).
pub open spec fn spec_strip_all(t: Seq<char>, pats: Seq<String>, i: int) -> Seq<char>
    decreases pats.len() - i,
{
    if i < 0 || i >= pats.len() {
        t
    } else {
        spec_strip_all(replaced_of(pats[i]@, t, ""@), pats, i + 1)
    }
}

/// The text after applying, in order, every replacement rule of `rules`
/// from position `i` on.
pub open spec fn spec_replace_rules(t: Seq<char>, rules: Seq<Replace>, i: int) -> Seq<char>
    decreases rules.len() - i,
{
    if i < 0 || i >= rules.len() {
        t
    } else {
        spec_replace_rules(replaced_of(rules[i].from@, t, rules[i].to@), rules, i + 1)
    }
}

/// The text after removing, in order, every literal of `lits` from position
/// `i` on.
pub open spec fn spec_remove_all(t: Seq<char>, lits: Seq<String>, i: int) -> Seq<char>
    decreases lits.len() - i,
{
    if i < 0 || i >= lits.len() {
        t
    } else {
        spec_remove_all(spec_replace(t, lits[i]@, ""@), lits, i + 1)
    }
}

/// What the cleanup pipeline yields on `t` under `cfg`, stage by stage:
/// strip the configured patterns, apply the replacement rules, turn escaped
/// newline sequences into newlines, remove the configured literals, and
/// reformat every title match into a delimited heading.
pub open spec fn spec_clean(t: Seq<char>, cfg: Config) -> Seq<char> {
    let a = spec_strip_all(t, cfg.regex_expressions@, 0);
    let b = spec_replace_rules(a, cfg.replace@, 0);
    let c = spec_replace(b, "\\n"@, "\n"@);
    let d = spec_remove_all(c, cfg.replace_expressions@, 0);
    replaced_of(cfg.title_regex@, d, "\n------------$1------------\n"@)
}

/// Runs the cleanup pipeline over `text`, exactly as `spec_clean` lays it
/// down.  Rule order is significant and preserved.
pub fn cleanup_result_string(text: String, cfg: &Config) -> (r: String)
    ensures
        r@ == spec_clean(text@, *cfg),
{
    let ghost t0 = text@;
    let mut cur = text;
    let n1 = cfg.regex_expressions.len();
    let mut i: usize = 0;
    while i < n1
        invariant
            n1 == cfg.regex_expressions@.len(),
            i <= n1,
            spec_strip_all(t0, cfg.regex_expressions@, 0) == spec_strip_all(
                cur@,
                cfg.regex_expressions@,
                i as int,
            ),
        decreases n1 - i,
    {
        cur = crate::html::ext::regex_replace_all(
            cfg.regex_expressions[i].as_str(),
            cur.as_str(),
            "",
        );
        i += 1;
    }
    let ghost a = cur@;
    let n2 = cfg.replace.len();
    let mut j: usize = 0;
    while j < n2
        invariant
            n2 == cfg.replace@.len(),
            j <= n2,
            spec_replace_rules(a, cfg.replace@, 0) == spec_replace_rules(
                cur@,
                cfg.replace@,
                j as int,
            ),
        decreases n2 - j,
    {
        cur = crate::html::ext::regex_replace_all(
            cfg.replace[j].from.as_str(),
            cur.as_str(),
            cfg.replace[j].to.as_str(),
        );
        j += 1;
    }
    let ghost b = cur@;
    let cv = str_to_chars(cur.as_str());
    let nl_from = str_to_chars("\\n");
    let nl_to = str_to_chars("\n");
    let mut chars = crate::text::replace_literal(&cv, &nl_from, &nl_to);
    let ghost c = chars@;
    let n3 = cfg.replace_expressions.len();
    let mut k: usize = 0;
    let empty_to: Vec<char> = Vec::new();
    proof {
        assert(""@ =~= Seq::<char>::empty()) by {
            reveal_strlit("");
        }
    }
    while k < n3
        invariant
            n3 == cfg.replace_expressions@.len(),
            k <= n3,
            empty_to@ == ""@,
            spec_remove_all(c, cfg.replace_expressions@, 0) == spec_remove_all(
                chars@,
                cfg.replace_expressions@,
                k as int,
            ),
        decreases n3 - k,
    {
        let lit = str_to_chars(cfg.replace_expressions[k].as_str());
        chars = crate::text::replace_literal(&chars, &lit, &empty_to);
        k += 1;
    }
    let ds = chars_to_string(&chars);
    crate::html::ext::regex_replace_all(
        cfg.title_regex.as_str(),
        ds.as_str(),
        "\n------------$1------------\n",
    )
}

/// The outcome owed when a price page is parsed against document `d` with
/// raw text `src`: the anchor comes from the price pattern; the price is the
/// first child's inner text, cleaned of dollar signs and commas and read as
/// a decimal; the change is read from the sibling after that child, whose
/// inner markup the percentage pattern splits into a direction part and a
/// numeric part, the sign positive exactly where the direction part holds
/// the upward marker.  Each failure carries the class of the first step
/// that fails.
pub open spec fn spec_parse_price_outcome(
    d: crate::html::dom::Document,
    src: Seq<char>,
    sym: Seq<char>,
    preg: Seq<char>,
    pereg: Seq<char>,
    r: Result<PriceResult, ParseError>,
) -> bool {
    match crate::html::spec_anchor(d, preg, src) {
        Err(k) => r matches Err(e) && e.kind == k,
        Ok(a) => match crate::html::dom::spec_navigate(
            d,
            a,
            seq![crate::html::ElementRelation::Child(0)],
        ) {
            None => r matches Err(e) && e.kind == ErrorKind::TraversalOutOfBounds,
            Some(p) => {
                let cleaned = spec_replace(
                    spec_replace(d.nodes@[p].inner@, "$"@, ""@),
                    ","@,
                    ""@,
                );
                match crate::num::spec_parse_decimal(cleaned) {
                    None => r matches Err(e) && e.kind == ErrorKind::ConfigurationInvalid,
                    Some(pm) => if pm.0 > u64::MAX {
                        r matches Err(e) && e.kind == ErrorKind::ConfigurationInvalid
                    } else {
                        spec_parse_change_outcome(d, a, sym, pereg, pm, r)
                    },
                }
            },
        },
    }
}

/// The percentage-change half of `spec_parse_price_outcome`, from the
/// resolved anchor `a` and the already-read price `pm` on.
pub open spec fn spec_parse_change_outcome(
    d: crate::html::dom::Document,
    a: int,
    sym: Seq<char>,
    pereg: Seq<char>,
    pm: (nat, nat),
    r: Result<PriceResult, ParseError>,
) -> bool {
    match crate::html::dom::spec_navigate(
        d,
        a,
        seq![crate::html::ElementRelation::Child(0), crate::html::ElementRelation::Sibling(1)],
    ) {
        None => r matches Err(e) && e.kind == ErrorKind::TraversalOutOfBounds,
        Some(q) => match crate::html::ext::captures2_of(pereg, d.nodes@[q].inner@) {
            None => r matches Err(e) && e.kind == ErrorKind::ConfigurationInvalid,
            Some(g) => match crate::num::spec_parse_decimal(g.1) {
                None => r matches Err(e) && e.kind == ErrorKind::ConfigurationInvalid,
                Some(cm) => if cm.0 > u64::MAX {
                    r matches Err(e) && e.kind == ErrorKind::ConfigurationInvalid
                } else {
                    r matches Ok(pr) && pr.symbol@ == sym && pr.price == (Decimal {
                        negative: false,
                        mantissa: pm.0 as u64,
                        scale: pm.1 as usize,
                    }) && pr.change == (Decimal {
                        negative: !crate::text::spec_contains(g.0, "icon-Caret-up"@),
                        mantissa: cm.0 as u64,
                        scale: cm.1 as usize,
                    })
                },
            },
        },
    }
}

/// Parses the price and signed percentage change from an already-parsed
/// page, exactly as `spec_parse_price_outcome` lays down.
pub fn parse_price_from(
    doc: &crate::html::dom::Document,
    source: &str,
    symbol: String,
    price_regex: &str,
    percent_regex: &str,
) -> (r: Result<PriceResult, ParseError>)
    requires
        doc.wf(),
    ensures
        spec_parse_price_outcome(*doc, source@, symbol@, price_regex@, percent_regex@, r),
{
    let anchor = match crate::html::locate(price_regex, source, doc) {
        Ok(a) => a,
        Err(e) => {
            return Err(e);
        },
    };
    let mut path1: Vec<crate::html::ElementRelation> = Vec::new();
    path1.push(crate::html::ElementRelation::Child(0));
    proof {
        assert(path1@ =~= seq![crate::html::ElementRelation::Child(0)]);
    }
    let p = match crate::html::dom::navigate_relation(doc, anchor, &path1) {
        Ok(p) => p,
        Err(e) => {
            return Err(e);
        },
    };
    let ptext = str_to_chars(doc.nodes[p].inner.as_str());
    let dollar = str_to_chars("$");
    let comma = str_to_chars(",");
    let empty: Vec<char> = Vec::new();
    proof {
        assert(""@ =~= Seq::<char>::empty()) by {
            reveal_strlit("");
        }
    }
    let cleaned1 = crate::text::replace_literal(&ptext, &dollar, &empty);
    let cleaned = crate::text::replace_literal(&cleaned1, &comma, &empty);
    let price = match crate::num::parse_decimal(&cleaned) {
        Ok(d) => d,
        Err(e) => {
            return Err(e);
        },
    };
    let mut path2: Vec<crate::html::ElementRelation> = Vec::new();
    path2.push(crate::html::ElementRelation::Child(0));
    path2.push(crate::html::ElementRelation::Sibling(1));
    proof {
        assert(path2@ =~= seq![
            crate::html::ElementRelation::Child(0),
            crate::html::ElementRelation::Sibling(1),
        ]);
    }
    let q = match crate::html::dom::navigate_relation(doc, anchor, &path2) {
        Ok(q) => q,
        Err(e) => {
            return Err(e);
        },
    };
    match crate::html::ext::regex_captures_two(percent_regex, doc.nodes[q].inner.as_str()) {
        None => Err(
            ParseError::with_kind(
                ErrorKind::ConfigurationInvalid,
                String::from_str("no percentage block; check the page for the symbol"),
            ),
        ),
        Some(g) => {
            let (c1, c2) = g;
            let mag_chars = str_to_chars(c2.as_str());
            let mag = match crate::num::parse_decimal(&mag_chars) {
                Ok(d) => d,
                Err(e) => {
                    return Err(e);
                },
            };
            let up_pat = str_to_chars("icon-Caret-up");
            let c1v = str_to_chars(c1.as_str());
            let up = crate::text::contains_literal(&c1v, &up_pat);
            Ok(
                PriceResult {
                    symbol,
                    price,
                    change: Decimal { negative: !up, mantissa: mag.mantissa, scale: mag.scale },
                },
            )
        },
    }
}

/// Parses the price and signed change out of page text.  The document is
/// the named parse result of `html`; `parse_price_from` carries the exact
/// contract against it, and a page whose model fails validation reports
/// `ElementNotFound`.
pub fn parse_price(
    html: &str,
    symbol: String,
    reg_price_section: &str,
    per_regex: &str,
) -> (r: Result<PriceResult, ParseError>)
    ensures
        ({
            let d = crate::html::ext::dom_of(html@);
            if d.wf() {
                spec_parse_price_outcome(d, html@, symbol@, reg_price_section@, per_regex@, r)
            } else {
                r matches Err(e) && e.kind == ErrorKind::ElementNotFound
            }
        }),
{
    match crate::html::parse_document(html) {
        Some(doc) => parse_price_from(&doc, html, symbol, reg_price_section, per_regex),
        None => Err(
            ParseError::with_kind(
                ErrorKind::ElementNotFound,
                String::from_str("element not found: the page could not be modelled"),
            ),
        ),
    }
}

/// One batch unit: a symbol and the outcome of fetching its page.
pub struct FetchTask {
    pub symbol: String,
    pub page: Result<String, ParseError>,
}

/// The outcome owed for one batch task: a failed fetch carries its own
/// failure through unchanged, and a fetched page is parsed like any single
/// price page.
pub open spec fn spec_batch_outcome(
    task: FetchTask,
    preg: Seq<char>,
    pereg: Seq<char>,
    out: Result<PriceResult, ParseError>,
) -> bool {
    match task.page {
        Err(e1) => out matches Err(e2) && e2.kind == e1.kind && e2.details@ == e1.details@,
        Ok(h) => {
            let d = crate::html::ext::dom_of(h@);
            if d.wf() {
                spec_parse_price_outcome(d, h@, task.symbol@, preg, pereg, out)
            } else {
                out matches Err(e) && e.kind == ErrorKind::ElementNotFound
            }
        },
    }
}

/// Processes a whole batch: exactly one outcome per task, in task order,
/// each as `spec_batch_outcome` lays down.  No failure drops or disturbs
/// another task's outcome.
pub fn run_batch(
    tasks: &Vec<FetchTask>,
    price_regex: &str,
    percent_regex: &str,
) -> (r: Vec<Result<PriceResult, ParseError>>)
    ensures
        r@.len() == tasks@.len(),
        forall|i: int|
            0 <= i < tasks@.len() ==> spec_batch_outcome(
                tasks@[i],
                price_regex@,
                percent_regex@,
                #[trigger] r@[i],
            ),
{
    let mut out: Vec<Result<PriceResult, ParseError>> = Vec::new();
    let n = tasks.len();
    let mut i: usize = 0;
    while i < n
        invariant
            n == tasks@.len(),
            i <= n,
            out@.len() == i,
            forall|i0: int|
                0 <= i0 < i ==> spec_batch_outcome(
                    tasks@[i0],
                    price_regex@,
                    percent_regex@,
                    #[trigger] out@[i0],
                ),
        decreases n - i,
    {
        let t = &tasks[i];
        let item = match &t.page {
            Ok(h) => parse_price(h.as_str(), t.symbol.clone(), price_regex, percent_regex),
            Err(e) => Err(ParseError::with_kind(e.kind, e.details.clone())),
        };
        out.push(item);
        i += 1;
    }
    out
}

/// The fixed relation path to cell `col` of market row `i`, from the table
/// anchor: down into the table body, into row `i`, then to the cell.
pub open spec fn spec_cells_path(i: int, col: int) -> Seq<crate::html::ElementRelation> {
    if col == 1 {
        seq![
            crate::html::ElementRelation::Child(1),
            crate::html::ElementRelation::Child(i as i32),
            crate::html::ElementRelation::Child(1),
            crate::html::ElementRelation::Child(0),
            crate::html::ElementRelation::Child(0),
            crate::html::ElementRelation::Child(1),
            crate::html::ElementRelation::Child(0),
        ]
    } else if col == 2 {
        seq![
            crate::html::ElementRelation::Child(1),
            crate::html::ElementRelation::Child(i as i32),
            crate::html::ElementRelation::Child(2),
            crate::html::ElementRelation::Child(0),
            crate::html::ElementRelation::Child(0),
        ]
    } else if col == 3 {
        seq![
            crate::html::ElementRelation::Child(1),
            crate::html::ElementRelation::Child(i as i32),
            crate::html::ElementRelation::Child(3),
        ]
    } else if col == 4 {
        seq![
            crate::html::ElementRelation::Child(1),
            crate::html::ElementRelation::Child(i as i32),
            crate::html::ElementRelation::Child(4),
            crate::html::ElementRelation::Child(0),
        ]
    } else {
        seq![
            crate::html::ElementRelation::Child(1),
            crate::html::ElementRelation::Child(i as i32),
            crate::html::ElementRelation::Child(5),
            crate::html::ElementRelation::Child(0),
            crate::html::ElementRelation::Child(0),
        ]
    }
}

/// The five cell texts of market row `i`: venue, pair, price, volume and
/// volume share, each at the end of its fixed relation path from the table
/// anchor; or the class of the first step that fails.
pub open spec fn spec_market_cells(
    d: crate::html::dom::Document,
    src: Seq<char>,
    i: int,
) -> Result<(Seq<char>, Seq<char>, Seq<char>, Seq<char>, Seq<char>), ErrorKind> {
    match crate::html::spec_anchor(d, "<(table) (class=\".*?currencies-markets_.*? \")>"@, src) {
        Err(k) => Err(k),
        Ok(a) => {
            match crate::html::dom::spec_navigate(d, a, spec_cells_path(i, 1)) {
                None => Err(ErrorKind::TraversalOutOfBounds),
                Some(n1) => match crate::html::dom::spec_navigate(d, a, spec_cells_path(i, 2)) {
                    None => Err(ErrorKind::TraversalOutOfBounds),
                    Some(n2) => match crate::html::dom::spec_navigate(d, a, spec_cells_path(i, 3)) {
                        None => Err(ErrorKind::TraversalOutOfBounds),
                        Some(n3) => match crate::html::dom::spec_navigate(
                            d,
                            a,
                            spec_cells_path(i, 4),
                        ) {
                            None => Err(ErrorKind::TraversalOutOfBounds),
                            Some(n4) => match crate::html::dom::spec_navigate(
                                d,
                                a,
                                spec_cells_path(i, 5),
                            ) {
                                None => Err(ErrorKind::TraversalOutOfBounds),
                                Some(n5) => Ok(
                                    (
                                        d.nodes@[n1].inner@,
                                        d.nodes@[n2].inner@,
                                        d.nodes@[n3].inner@,
                                        d.nodes@[n4].inner@,
                                        d.nodes@[n5].inner@,
                                    ),
                                ),
                            },
                        },
                    },
                },
            }
        },
    }
}

/// One market row as values: the cell texts of `spec_market_cells`, with
/// the price and volume cells filtered to digits and dots and read as
/// decimals, and the volume share read the same way after its comma becomes
/// a dot.  A cell that does not yield a number is `ConfigurationInvalid`.
pub open spec fn spec_market_row(d: crate::html::dom::Document, src: Seq<char>, i: int) -> Result<
    (Seq<char>, Seq<char>, Decimal, Decimal, Decimal),
    ErrorKind,
> {
    match spec_market_cells(d, src, i) {
        Err(k) => Err(k),
        Ok(c) => {
            let pr = crate::num::spec_parse_decimal(spec_keep_numeric(c.2));
            let vo = crate::num::spec_parse_decimal(spec_keep_numeric(c.3));
            let vp = crate::num::spec_parse_decimal(
                spec_keep_numeric(spec_replace(c.4, ","@, "."@)),
            );
            match (pr, vo, vp) {
                (Some(prv), Some(vov), Some(vpv)) => if prv.0 > u64::MAX || vov.0 > u64::MAX
                    || vpv.0 > u64::MAX {
                    Err(ErrorKind::ConfigurationInvalid)
                } else {
                    Ok(
                        (
                            c.0,
                            c.1,
                            (Decimal {
                                negative: false,
                                mantissa: prv.0 as u64,
                                scale: prv.1 as usize,
                            }),
                            (Decimal {
                                negative: false,
                                mantissa: vov.0 as u64,
                                scale: vov.1 as usize,
                            }),
                            (Decimal {
                                negative: false,
                                mantissa: vpv.0 as u64,
                                scale: vpv.1 as usize,
                            }),
                        ),
                    )
                },
                _ => Err(ErrorKind::ConfigurationInvalid),
            }
        },
    }
}

/// The market rows from `i` up to `n`, in order; the first failing row
/// fails the whole query.
pub open spec fn spec_market_rows(
    d: crate::html::dom::Document,
    src: Seq<char>,
    n: int,
    i: int,
) -> Result<Seq<(Seq<char>, Seq<char>, Decimal, Decimal, Decimal)>, ErrorKind>
    decreases n - i,
{
    if i >= n {
        Ok(Seq::empty())
    } else {
        match spec_market_row(d, src, i) {
            Err(k) => Err(k),
            Ok(rv) => match spec_market_rows(d, src, n, i + 1) {
                Ok(tail) => Ok(seq![rv] + tail),
                Err(k) => Err(k),
            },
        }
    }
}

/// `mr` carries exactly the values of row view `rv`.
pub open spec fn spec_row_matches(
    mr: MarketResult,
    rv: (Seq<char>, Seq<char>, Decimal, Decimal, Decimal),
) -> bool {
    mr.source@ == rv.0 && mr.pair@ == rv.1 && mr.price == rv.2 && mr.volume == rv.3
        && mr.volume_percent == rv.4
}

/// Where every row from `start` up to `n` is good, the whole range is, one
/// row view per row in order.
proof fn lemma_market_rows_ok(d: crate::html::dom::Document, src: Seq<char>, n: int, start: int)
    requires
        0 <= start <= n,
        forall|t: int| start <= t < n ==> (#[trigger] spec_market_row(d, src, t)) is Ok,
    ensures
        spec_market_rows(d, src, n, start) matches Ok(rows) && rows.len() == n - start && (forall|
            t: int,
        |
            start <= t < n ==> ((#[trigger] spec_market_row(d, src, t)) matches Ok(rv)
                && rows[t - start] == rv)),
    decreases n - start,
{
    if start < n {
        lemma_market_rows_ok(d, src, n, start + 1);
    }
}

/// Where the rows before `i` are good and row `i` fails with `k`, the whole
/// query fails with `k`.
proof fn lemma_market_rows_err(
    d: crate::html::dom::Document,
    src: Seq<char>,
    n: int,
    start: int,
    i: int,
    k: ErrorKind,
)
    requires
        0 <= start <= i < n,
        spec_market_row(d, src, i) == Err::<
            (Seq<char>, Seq<char>, Decimal, Decimal, Decimal),
            ErrorKind,
        >(k),
        forall|t: int| start <= t < i ==> (#[trigger] spec_market_row(d, src, t)) is Ok,
    ensures
        spec_market_rows(d, src, n, start) == Err::<
            Seq<(Seq<char>, Seq<char>, Decimal, Decimal, Decimal)>,
            ErrorKind,
        >(k),
    decreases i - start,
{
    if start < i {
        lemma_market_rows_err(d, src, n, start + 1, i, k);
    }
}

/// Extracts up to `number_of_results` market rows from an already-parsed
/// page, exactly as `spec_market_rows` lays down: one locate anchors the
/// table, fixed relation paths reach each row's five cells, and the numeric
/// cells are read as decimals.
pub fn market_rows_from(
    doc: &crate::html::dom::Document,
    source: &str,
    number_of_results: i32,
) -> (r: Result<Vec<MarketResult>, ParseError>)
    requires
        doc.wf(),
    ensures
        match spec_market_rows(*doc, source@, number_of_results as int, 0) {
            Ok(rows) => r matches Ok(v) && v@.len() == rows.len() && (forall|t: int|
                0 <= t < rows.len() ==> spec_row_matches(#[trigger] v@[t], rows[t - 0])),
            Err(k) => r matches Err(e) && e.kind == k,
        },
{
    let n = number_of_results;
    let mut out: Vec<MarketResult> = Vec::new();
    if n <= 0 {
        return Ok(out);
    }
    let anchor = match crate::html::locate(
        "<(table) (class=\".*?currencies-markets_.*? \")>",
        source,
        doc,
    ) {
        Ok(a) => a,
        Err(e) => {
            proof {
                assert(spec_market_row(*doc, source@, 0) matches Err(kk) && kk == e.kind);
                lemma_market_rows_err(*doc, source@, n as int, 0, 0, e.kind);
            }
            return Err(e);
        },
    };
    let mut i: i32 = 0;
    while i < n
        invariant
            doc.wf(),
            n == number_of_results,
            0 < n,
            0 <= i <= n,
            out@.len() == i as int,
            anchor < doc.nodes@.len(),
            crate::html::spec_anchor(
                *doc,
                "<(table) (class=\".*?currencies-markets_.*? \")>"@,
                source@,
            ) == Ok::<int, ErrorKind>(anchor as int),
            forall|t: int|
                0 <= t < i ==> ((#[trigger] spec_market_row(*doc, source@, t)) matches Ok(
                    rv,
                ) && spec_row_matches(out@[t], rv)),
        decreases n - i,
    {
        let mut p1: Vec<crate::html::ElementRelation> = Vec::new();
        p1.push(crate::html::ElementRelation::Child(1));
        p1.push(crate::html::ElementRelation::Child(i));
        p1.push(crate::html::ElementRelation::Child(1));
        p1.push(crate::html::ElementRelation::Child(0));
        p1.push(crate::html::ElementRelation::Child(0));
        p1.push(crate::html::ElementRelation::Child(1));
        p1.push(crate::html::ElementRelation::Child(0));
        let mut p2: Vec<crate::html::ElementRelation> = Vec::new();
        p2.push(crate::html::ElementRelation::Child(1));
        p2.push(crate::html::ElementRelation::Child(i));
        p2.push(crate::html::ElementRelation::Child(2));
        p2.push(crate::html::ElementRelation::Child(0));
        p2.push(crate::html::ElementRelation::Child(0));
        let mut p3: Vec<crate::html::ElementRelation> = Vec::new();
        p3.push(crate::html::ElementRelation::Child(1));
        p3.push(crate::html::ElementRelation::Child(i));
        p3.push(crate::html::ElementRelation::Child(3));
        let mut p4: Vec<crate::html::ElementRelation> = Vec::new();
        p4.push(crate::html::ElementRelation::Child(1));
        p4.push(crate::html::ElementRelation::Child(i));
        p4.push(crate::html::ElementRelation::Child(4));
        p4.push(crate::html::ElementRelation::Child(0));
        let mut p5: Vec<crate::html::ElementRelation> = Vec::new();
        p5.push(crate::html::ElementRelation::Child(1));
        p5.push(crate::html::ElementRelation::Child(i));
        p5.push(crate::html::ElementRelation::Child(5));
        p5.push(crate::html::ElementRelation::Child(0));
        p5.push(crate::html::ElementRelation::Child(0));
        proof {
            assert(p1@ =~= spec_cells_path(i as int, 1));
            assert(p2@ =~= spec_cells_path(i as int, 2));
            assert(p3@ =~= spec_cells_path(i as int, 3));
            assert(p4@ =~= spec_cells_path(i as int, 4));
            assert(p5@ =~= spec_cells_path(i as int, 5));
        }
        let n1 = match crate::html::dom::navigate_relation(doc, anchor, &p1) {
            Ok(j) => j,
            Err(e) => {
                proof {
                    lemma_market_rows_err(*doc, source@, n as int, 0, i as int, e.kind);
                }
                return Err(e);
            },
        };
        let n2 = match crate::html::dom::navigate_relation(doc, anchor, &p2) {
            Ok(j) => j,
            Err(e) => {
                proof {
                    lemma_market_rows_err(*doc, source@, n as int, 0, i as int, e.kind);
                }
                return Err(e);
            },
        };
        let n3 = match crate::html::dom::navigate_relation(doc, anchor, &p3) {
            Ok(j) => j,
            Err(e) => {
                proof {
                    lemma_market_rows_err(*doc, source@, n as int, 0, i as int, e.kind);
                }
                return Err(e);
            },
        };
        let n4 = match crate::html::dom::navigate_relation(doc, anchor, &p4) {
            Ok(j) => j,
            Err(e) => {
                proof {
                    lemma_market_rows_err(*doc, source@, n as int, 0, i as int, e.kind);
                }
                return Err(e);
            },
        };
        let n5 = match crate::html::dom::navigate_relation(doc, anchor, &p5) {
            Ok(j) => j,
            Err(e) => {
                proof {
                    lemma_market_rows_err(*doc, source@, n as int, 0, i as int, e.kind);
                }
                return Err(e);
            },
        };
        let price_chars = keep_numeric(&str_to_chars(doc.nodes[n3].inner.as_str()));
        let vol_chars = keep_numeric(&str_to_chars(doc.nodes[n4].inner.as_str()));
        let comma = str_to_chars(",");
        let dot = str_to_chars(".");
        let vp_replaced = crate::text::replace_literal(
            &str_to_chars(doc.nodes[n5].inner.as_str()),
            &comma,
            &dot,
        );
        let vp_chars = keep_numeric(&vp_replaced);
        let price = match crate::num::parse_decimal(&price_chars) {
            Ok(d) => d,
            Err(e) => {
                proof {
                    lemma_market_rows_err(*doc, source@, n as int, 0, i as int, ErrorKind::ConfigurationInvalid);
                }
                return Err(e);
            },
        };
        let volume = match crate::num::parse_decimal(&vol_chars) {
            Ok(d) => d,
            Err(e) => {
                proof {
                    lemma_market_rows_err(*doc, source@, n as int, 0, i as int, ErrorKind::ConfigurationInvalid);
                }
                return Err(e);
            },
        };
        let volume_percent = match crate::num::parse_decimal(&vp_chars) {
            Ok(d) => d,
            Err(e) => {
                proof {
                    lemma_market_rows_err(*doc, source@, n as int, 0, i as int, ErrorKind::ConfigurationInvalid);
                }
                return Err(e);
            },
        };
        let row = MarketResult {
            source: doc.nodes[n1].inner.clone(),
            pair: doc.nodes[n2].inner.clone(),
            price,
            volume,
            volume_percent,
        };
        proof {
            assert(spec_market_row(*doc, source@, i as int) matches Ok(rv) && spec_row_matches(row, rv));
        }
        out.push(row);
        i += 1;
    }
    proof {
        lemma_market_rows_ok(*doc, source@, n as int, 0);
        let rows = spec_market_rows(*doc, source@, n as int, 0)->Ok_0;
        assert forall|t: int| 0 <= t < rows.len() implies spec_row_matches(out@[t], rows[t]) by {
            assert(spec_market_row(*doc, source@, t) is Ok);
        }
    }
    Ok(out)
}

/// Extracts up to `number_of_results` market rows from page text.  The
/// document is the named parse result of `html`; `market_rows_from` carries
/// the exact contract against it, and a page whose model fails validation
/// reports `ElementNotFound`.
pub fn get_market_data(html: &str, number_of_results: i32) -> (r: Result<
    Vec<MarketResult>,
    ParseError,
>)
    ensures
        ({
            let d = crate::html::ext::dom_of(html@);
            if d.wf() {
                match spec_market_rows(d, html@, number_of_results as int, 0) {
                    Ok(rows) => r matches Ok(v) && v@.len() == rows.len() && (forall|t: int|
                        0 <= t < rows.len() ==> spec_row_matches(#[trigger] v@[t], rows[t])),
                    Err(k) => r matches Err(e) && e.kind == k,
                }
            } else {
                r matches Err(e) && e.kind == ErrorKind::ElementNotFound
            }
        }),
{
    match crate::html::parse_document(html) {
        Some(doc) => market_rows_from(&doc, html, number_of_results),
        None => Err(
            ParseError::with_kind(
                ErrorKind::ElementNotFound,
                String::from_str("element not found: the page could not be modelled"),
            ),
        ),
    }
}

/// The inner content of the parent of the anchor that `pat` resolves in
/// document `d`, or the class of the failure.
pub open spec fn spec_detail_text(
    d: crate::html::dom::Document,
    src: Seq<char>,
    pat: Seq<char>,
) -> Result<Seq<char>, ErrorKind> {
    match crate::html::spec_anchor(d, pat, src) {
        Err(k) => Err(k),
        Ok(a) => match crate::html::dom::spec_navigate(
            d,
            a,
            seq![crate::html::ElementRelation::Parent],
        ) {
            None => Err(ErrorKind::TraversalOutOfBounds),
            Some(j) => Ok(d.nodes@[j].inner@),
        },
    }
}

/// The outcome owed for a details query: the descriptive section is tried
/// first, then the about section; the first one found is cleaned through
/// the pipeline, and where both fail the second failure is reported.
pub open spec fn spec_details_outcome(
    d: crate::html::dom::Document,
    src: Seq<char>,
    cfg: Config,
    r: Result<String, ParseError>,
) -> bool {
    match spec_detail_text(d, src, cfg.what_is_regex@) {
        Ok(t) => r matches Ok(s) && s@ == spec_clean(t, cfg),
        Err(_) => match spec_detail_text(d, src, cfg.about_regex@) {
            Ok(t) => r matches Ok(s) && s@ == spec_clean(t, cfg),
            Err(k) => r matches Err(e) && e.kind == k,
        },
    }
}

/// The inner content of the parent of the element that `pat` anchors, as
/// `spec_detail_text` lays down.
fn detail_text(doc: &crate::html::dom::Document, source: &str, pat: &str) -> (r: Result<
    String,
    ParseError,
>)
    requires
        doc.wf(),
    ensures
        match spec_detail_text(*doc, source@, pat@) {
            Ok(t) => r matches Ok(s) && s@ == t,
            Err(k) => r matches Err(e) && e.kind == k,
        },
{
    let anchor = match crate::html::locate(pat, source, doc) {
        Ok(a) => a,
        Err(e) => {
            return Err(e);
        },
    };
    let mut path: Vec<crate::html::ElementRelation> = Vec::new();
    path.push(crate::html::ElementRelation::Parent);
    proof {
        assert(path@ =~= seq![crate::html::ElementRelation::Parent]);
    }
    match crate::html::dom::navigate_relation(doc, anchor, &path) {
        Ok(j) => Ok(doc.nodes[j].inner.clone()),
        Err(e) => Err(e),
    }
}

/// The details of a page, against an already-parsed document: the
/// descriptive section, or failing that the about section, cleaned through
/// the pipeline.  Exact against `spec_details_outcome`.
pub fn extract_details_from(
    doc: &crate::html::dom::Document,
    source: &str,
    cfg: &Config,
) -> (r: Result<String, ParseError>)
    requires
        doc.wf(),
    ensures
        spec_details_outcome(*doc, source@, *cfg, r),
{
    match detail_text(doc, source, cfg.what_is_regex.as_str()) {
        Ok(t) => Ok(cleanup_result_string(t, cfg)),
        Err(_) => match detail_text(doc, source, cfg.about_regex.as_str()) {
            Ok(t) => Ok(cleanup_result_string(t, cfg)),
            Err(e) => Err(e),
        },
    }
}

/// The details of a page: the descriptive section, or failing that the
/// about section, cleaned through the pipeline.  The document is the named
/// parse result of `html`; `extract_details_from` carries the exact
/// contract against it, and a page whose model fails validation reports
/// `ElementNotFound`.
pub fn get_details(html: &str, cfg: &Config) -> (r: Result<String, ParseError>)
    ensures
        ({
            let d = crate::html::ext::dom_of(html@);
            if d.wf() {
                spec_details_outcome(d, html@, *cfg, r)
            } else {
                r matches Err(e) && e.kind == ErrorKind::ElementNotFound
            }
        }),
{
    match crate::html::parse_document(html) {
        Some(doc) => extract_details_from(&doc, html, cfg),
        None => Err(
            ParseError::with_kind(
                ErrorKind::ElementNotFound,
                String::from_str("element not found: the page could not be modelled"),
            ),
        ),
    }
}

/// Walking one relation path is deterministic: two walks over the same
/// document from the same anchor along the same path end at the same node,
/// or fail alike.
pub proof fn lemma_navigate_deterministic(
    d: crate::html::dom::Document,
    anchor: int,
    path: Seq<crate::html::ElementRelation>,
    r1: Option<int>,
    r2: Option<int>,
)
    requires
        r1 == crate::html::dom::spec_navigate(d, anchor, path),
        r2 == crate::html::dom::spec_navigate(d, anchor, path),
    ensures
        r1 == r2,
{
}

/// A last-child step: on an element with children, `Child(-1)` reaches the
/// last child; on an element without children, it fails.
pub proof fn lemma_child_negative_last(d: crate::html::dom::Document, at: int, k: i32)
    requires
        0 <= at < d.nodes@.len(),
        k < 0,
    ensures
        d.nodes@[at].children@.len() > 0 ==> crate::html::dom::spec_step(
            d,
            at,
            crate::html::ElementRelation::Child(k),
        ) == Some(d.nodes@[at].children@.last() as int),
        d.nodes@[at].children@.len() == 0 ==> crate::html::dom::spec_step(
            d,
            at,
            crate::html::ElementRelation::Child(k),
        ) is None,
{
}

/// Idempotence of the cleanup pipeline: where no rule reintroduces what the
/// pipeline removed — that is, applying any single stage to the cleaned
/// text gives it back unchanged — cleaning a second time changes nothing.
pub proof fn lemma_clean_idempotent(t: Seq<char>, cfg: Config)
    requires
        forall|i: int|
            0 <= i < cfg.regex_expressions@.len() ==> replaced_of(
                (#[trigger] cfg.regex_expressions@[i])@,
                spec_clean(t, cfg),
                ""@,
            ) == spec_clean(t, cfg),
        forall|i: int|
            0 <= i < cfg.replace@.len() ==> replaced_of(
                (#[trigger] cfg.replace@[i]).from@,
                spec_clean(t, cfg),
                cfg.replace@[i].to@,
            ) == spec_clean(t, cfg),
        !crate::text::spec_contains(spec_clean(t, cfg), "\\n"@),
        forall|i: int|
            0 <= i < cfg.replace_expressions@.len() ==> !crate::text::spec_contains(
                spec_clean(t, cfg),
                (#[trigger] cfg.replace_expressions@[i])@,
            ),
        replaced_of(cfg.title_regex@, spec_clean(t, cfg), "\n------------$1------------\n"@)
            == spec_clean(t, cfg),
    ensures
        spec_clean(spec_clean(t, cfg), cfg) == spec_clean(t, cfg),
{
    let c = spec_clean(t, cfg);
    lemma_strip_all_fixed(c, cfg.regex_expressions@, 0);
    lemma_replace_rules_fixed(c, cfg.replace@, 0);
    crate::text::lemma_replace_absent(c, "\\n"@, "\n"@);
    lemma_remove_all_fixed(c, cfg.replace_expressions@, 0);
}

/// Where every strip pattern leaves `c` unchanged, the whole strip stage
/// does.
proof fn lemma_strip_all_fixed(c: Seq<char>, pats: Seq<String>, i: int)
    requires
        forall|j: int| 0 <= j < pats.len() ==> replaced_of((#[trigger] pats[j])@, c, ""@) == c,
    ensures
        spec_strip_all(c, pats, i) == c,
    decreases pats.len() - i,
{
    if 0 <= i < pats.len() {
        lemma_strip_all_fixed(c, pats, i + 1);
    }
}

/// Where every replacement rule leaves `c` unchanged, the whole replace
/// stage does.
proof fn lemma_replace_rules_fixed(c: Seq<char>, rules: Seq<Replace>, i: int)
    requires
        forall|j: int|
            0 <= j < rules.len() ==> replaced_of(
                (#[trigger] rules[j]).from@,
                c,
                rules[j].to@,
            ) == c,
    ensures
        spec_replace_rules(c, rules, i) == c,
    decreases rules.len() - i,
{
    if 0 <= i < rules.len() {
        lemma_replace_rules_fixed(c, rules, i + 1);
    }
}

/// Where no removal literal occurs in `c`, the whole removal stage leaves
/// it unchanged.
proof fn lemma_remove_all_fixed(c: Seq<char>, lits: Seq<String>, i: int)
    requires
        forall|j: int|
            0 <= j < lits.len() ==> !crate::text::spec_contains(c, (#[trigger] lits[j])@),
    ensures
        spec_remove_all(c, lits, i) == c,
    decreases lits.len() - i,
{
    if 0 <= i < lits.len() {
        crate::text::lemma_replace_absent(c, lits[i]@, ""@);
        lemma_remove_all_fixed(c, lits, i + 1);
    }
}

} // verus!
