//! The configuration the extraction engine reads: the symbols to query, the
//! locator patterns for the page sections, and the cleanup rule sets.
//! Loading and storing the configuration file is a caller's concern; this
//! module only holds and edits the values.

use vstd::prelude::*;

verus! {

/// A replacement rule of the cleanup pipeline: text matching `from` becomes
/// `to`.
#[derive(Clone, Debug)]
pub struct Replace {
    pub from: String,
    pub to: String,
}

/// The configuration values.
#[derive(Clone, Debug)]
pub struct Config {
    /// The symbols whose pages are queried.
    pub symbols: Vec<String>,
    /// Patterns whose matches are stripped from extracted text.
    pub regex_expressions: Vec<String>,
    /// Literal substrings removed from extracted text.
    pub replace_expressions: Vec<String>,
    /// Locator pattern for the about section.
    pub about_regex: String,
    /// Locator pattern for the descriptive section.
    pub what_is_regex: String,
    /// Pattern whose matches are reformatted as headings.
    pub title_regex: String,
    /// Locator pattern for the price section.
    pub price_regex: String,
    /// Pattern splitting a percentage block into direction markup and
    /// numeric text.
    pub price_percentage_regex: String,
    /// Replacement rules, applied in order.
    pub replace: Vec<Replace>,
}

/// The configuration together with the location it was loaded from.
pub struct ConfigObject {
    pub configuration: Config,
    pub source: String,
}

impl ConfigObject {
    /// Wraps already-loaded configuration values with their source location.
    pub fn new(configuration: Config, source: String) -> (r: ConfigObject)
        ensures
            r.configuration == configuration,
            r.source == source,
    {
        ConfigObject { configuration, source }
    }

    /// Removes and returns the symbol at index `i`.
    pub fn delete_symbol(&mut self, i: usize) -> (r: String)
        requires
            i < old(self).configuration.symbols@.len(),
        ensures
            r == old(self).configuration.symbols@[i as int],
            final(self).configuration.symbols@ == old(self).configuration.symbols@.remove(
                i as int,
            ),
            final(self).configuration.regex_expressions == old(self).configuration.regex_expressions,
            final(self).configuration.replace_expressions == old(
                self,
            ).configuration.replace_expressions,
            final(self).configuration.about_regex == old(self).configuration.about_regex,
            final(self).configuration.what_is_regex == old(self).configuration.what_is_regex,
            final(self).configuration.title_regex == old(self).configuration.title_regex,
            final(self).configuration.price_regex == old(self).configuration.price_regex,
            final(self).configuration.price_percentage_regex == old(
                self,
            ).configuration.price_percentage_regex,
            final(self).configuration.replace == old(self).configuration.replace,
            final(self).source == old(self).source,
    {
        self.configuration.symbols.remove(i)
    }

    /// Appends `symbol` to the symbol list.
    pub fn add_symbol(&mut self, symbol: String)
        ensures
            final(self).configuration.symbols@ == old(self).configuration.symbols@.push(symbol),
            final(self).configuration.regex_expressions == old(self).configuration.regex_expressions,
            final(self).configuration.replace_expressions == old(
                self,
            ).configuration.replace_expressions,
            final(self).configuration.about_regex == old(self).configuration.about_regex,
            final(self).configuration.what_is_regex == old(self).configuration.what_is_regex,
            final(self).configuration.title_regex == old(self).configuration.title_regex,
            final(self).configuration.price_regex == old(self).configuration.price_regex,
            final(self).configuration.price_percentage_regex == old(
                self,
            ).configuration.price_percentage_regex,
            final(self).configuration.replace == old(self).configuration.replace,
            final(self).source == old(self).source,
    {
        self.configuration.symbols.push(symbol);
    }

    /// The symbols, as a fresh vector.
    pub fn get_symbols(&self) -> (r: Vec<String>)
        ensures
            r@ == self.configuration.symbols@,
    {
        let mut result: Vec<String> = Vec::new();
        let n = self.configuration.symbols.len();
        let mut i: usize = 0;
        while i < n
            invariant
                n == self.configuration.symbols@.len(),
                i <= n,
                result@ == self.configuration.symbols@.take(i as int),
            decreases n - i,
        {
            assert(self.configuration.symbols@.take(i + 1) =~= self.configuration.symbols@.take(
                i as int,
            ).push(self.configuration.symbols@[i as int]));
            result.push(self.configuration.symbols[i].clone());
            i += 1;
        }
        assert(result@ =~= self.configuration.symbols@);
        result
    }
}

} // verus!
