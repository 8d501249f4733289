//! Rendered predicate fragments.
//!
//! A filter renders to a [`Fragment`]: a clause text made only of fixed column
//! names, operators and `?` placeholders, together with the values to bind to
//! those placeholders, in order. Field values never appear in the text itself,
//! so a rendered fragment is safe against injection by construction.

use vstd::prelude::*;

verus! {

/// One value bound to a `?` placeholder of a fragment.
#[derive(Debug, Clone)]
pub enum Param {
    Str(String),
    Int(i32),
}

/// A rendered predicate fragment: clause text plus bound parameters.
///
/// `text` holds one `?` per element of `params`, in the same order.
#[derive(Debug)]
pub struct Fragment {
    pub text: String,
    pub params: Vec<Param>,
}

/// The text of an equality conjunct on `column`, with a trailing `AND` so
/// that further conjuncts can always be appended.
pub open spec fn eq_conjunct_text(column: Seq<char>) -> Seq<char> {
    " "@ + column + "=? AND"@
}

/// The text of a substring (`LIKE`) conjunct on `column`.
pub open spec fn like_conjunct_text(column: Seq<char>) -> Seq<char> {
    " "@ + column + " LIKE '%'||?||'%' AND"@
}

/// The text of a sub-query membership conjunct: `column` must be among the
/// values that `subquery` yields for the bound parameter.
pub open spec fn in_subquery_conjunct_text(column: Seq<char>, subquery: Seq<char>) -> Seq<char> {
    " "@ + column + " IN ("@ + subquery + ") AND"@
}

/// The text of one assignment of a SET clause, with a trailing comma so
/// that further assignments can always be appended.
pub open spec fn set_assign_text(column: Seq<char>) -> Seq<char> {
    " "@ + column + "=?,"@
}

/// The terminal tautological conjunct: always true, so that every rendered
/// predicate is a valid conjunction no matter how many optional fields
/// contributed a conjunct before it.
pub open spec fn tautology_text() -> Seq<char> {
    " 1=1"@
}

impl Fragment {
    /// An empty fragment: no text, no parameters.
    pub fn new() -> (r: Self)
        ensures
            r.text@ == Seq::<char>::empty(),
            r.params@ == Seq::<Param>::empty(),
    {
        Fragment { text: String::new(), params: Vec::new() }
    }

    /// Appends an equality conjunct on a fixed column, binding `value`.
    pub fn push_eq(&mut self, column: &str, value: String)
        ensures
            final(self).text@ == old(self).text@ + eq_conjunct_text(column@),
            final(self).params@ == old(self).params@.push(Param::Str(value)),
    {
        self.text.append(" ");
        self.text.append(column);
        self.text.append("=? AND");
        self.params.push(Param::Str(value));
        assert(self.text@ =~= old(self).text@ + eq_conjunct_text(column@));
    }

    /// Appends a substring-match conjunct on a fixed column, binding `value`.
    pub fn push_like(&mut self, column: &str, value: String)
        ensures
            final(self).text@ == old(self).text@ + like_conjunct_text(column@),
            final(self).params@ == old(self).params@.push(Param::Str(value)),
    {
        self.text.append(" ");
        self.text.append(column);
        self.text.append(" LIKE '%'||?||'%' AND");
        self.params.push(Param::Str(value));
        assert(self.text@ =~= old(self).text@ + like_conjunct_text(column@));
    }

    /// Appends a sub-query membership conjunct on a fixed column, binding
    /// `value` as the sub-query's parameter.
    pub fn push_in_subquery(&mut self, column: &str, subquery: &str, value: String)
        ensures
            final(self).text@ == old(self).text@ + in_subquery_conjunct_text(
                column@,
                subquery@,
            ),
            final(self).params@ == old(self).params@.push(Param::Str(value)),
    {
        self.text.append(" ");
        self.text.append(column);
        self.text.append(" IN (");
        self.text.append(subquery);
        self.text.append(") AND");
        self.params.push(Param::Str(value));
        assert(self.text@ =~= old(self).text@ + in_subquery_conjunct_text(column@, subquery@));
    }

    /// Appends an equality conjunct on a fixed column, binding an integer.
    pub fn push_eq_int(&mut self, column: &str, value: i32)
        ensures
            final(self).text@ == old(self).text@ + eq_conjunct_text(column@),
            final(self).params@ == old(self).params@.push(Param::Int(value)),
    {
        self.text.append(" ");
        self.text.append(column);
        self.text.append("=? AND");
        self.params.push(Param::Int(value));
        assert(self.text@ =~= old(self).text@ + eq_conjunct_text(column@));
    }

    /// Appends one `column=?` assignment of a SET clause, binding `value`;
    /// the trailing comma lets assignments chain like conjuncts do.
    pub fn push_set_eq(&mut self, column: &str, value: String)
        ensures
            final(self).text@ == old(self).text@ + set_assign_text(column@),
            final(self).params@ == old(self).params@.push(Param::Str(value)),
    {
        self.text.append(" ");
        self.text.append(column);
        self.text.append("=?,");
        self.params.push(Param::Str(value));
        assert(self.text@ =~= old(self).text@ + set_assign_text(column@));
    }

    /// Appends the terminal tautological conjunct.
    pub fn push_tautology(&mut self)
        ensures
            final(self).text@ == old(self).text@ + tautology_text(),
            final(self).params@ == old(self).params@,
    {
        self.text.append(" 1=1");
    }

    /// Appends a plain piece of fixed clause text, binding nothing.
    pub fn push_text(&mut self, piece: &str)
        ensures
            final(self).text@ == old(self).text@ + piece@,
            final(self).params@ == old(self).params@,
    {
        self.text.append(piece);
    }

    /// Appends a fixed piece of clause text that contains one `?`, binding
    /// `value` to it.
    pub fn push_int_piece(&mut self, piece: &str, value: i32)
        ensures
            final(self).text@ == old(self).text@ + piece@,
            final(self).params@ == old(self).params@.push(Param::Int(value)),
    {
        self.text.append(piece);
        self.params.push(Param::Int(value));
    }
}

} // verus!
