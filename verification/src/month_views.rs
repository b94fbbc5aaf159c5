//! The per-month view table of the shared server store.

use crate::text::{dec_str, pad2};
use crate::year_month::YearMonth;
use vstd::prelude::*;
use vstd::string::StringExecFns;

verus! {

/// The name of a month's view table.
pub open spec fn spec_month_views_table(year: int, month: int) -> Seq<char> {
    "month_views_"@ + dec_str(year as nat) + seq!['_'] + pad2(month as nat)
}

/// A month's view table: its name, and whether its creation was already
/// issued in this process.
#[derive(Debug)]
pub struct MonthViews {
    ym: YearMonth,
    table: String,
    table_exists: bool,
}

impl MonthViews {
    pub closed spec fn spec_ym(&self) -> YearMonth {
        self.ym
    }

    pub closed spec fn spec_table(&self) -> Seq<char> {
        self.table@
    }

    pub closed spec fn spec_table_exists(&self) -> bool {
        self.table_exists
    }

    pub fn new(ym: YearMonth) -> (r: Self)
        requires
            ym.wf(),
        ensures
            r.spec_ym() == ym,
            r.spec_table() == spec_month_views_table(ym.spec_year(), ym.spec_month()),
            !r.spec_table_exists(),
    {
        let mut table = "month_views_".to_owned();
        let y = crate::text::u64_to_string(ym.year() as u64);
        table.append(y.as_str());
        crate::text::push_char(&mut table, '_');
        let m = crate::text::u64_to_string_pad2(ym.month() as u64);
        table.append(m.as_str());
        proof {
            assert(table@ =~= spec_month_views_table(ym.spec_year(), ym.spec_month()));
        }
        Self { ym, table, table_exists: false }
    }

    /// The idempotent creation statement for the table.
    pub fn create_table_sql(&self) -> (s: String)
        ensures
            s@ == "CREATE TABLE IF NOT EXISTS "@ + self.spec_table()
                + " (`page_id` int(11) unsigned NOT NULL AUTO_INCREMENT,`views` int(11) unsigned DEFAULT NULL,PRIMARY KEY (`page_id`))"@,
    {
        let mut s = "CREATE TABLE IF NOT EXISTS ".to_owned();
        s.append(self.table.as_str());
        s.append(
            " (`page_id` int(11) unsigned NOT NULL AUTO_INCREMENT,`views` int(11) unsigned DEFAULT NULL,PRIMARY KEY (`page_id`))",
        );
        proof {
            assert(s@ =~= "CREATE TABLE IF NOT EXISTS "@ + self.spec_table()
                + " (`page_id` int(11) unsigned NOT NULL AUTO_INCREMENT,`views` int(11) unsigned DEFAULT NULL,PRIMARY KEY (`page_id`))"@);
        }
        s
    }

    /// Records that the creation statement was issued.
    pub fn mark_table_exists(&mut self)
        ensures
            final(self).spec_table_exists(),
            final(self).spec_ym() == old(self).spec_ym(),
            final(self).spec_table() == old(self).spec_table(),
    {
        self.table_exists = true;
    }

    /// Whether the creation statement still has to be issued.
    pub fn needs_creation(&self) -> (r: bool)
        ensures
            r == !self.spec_table_exists(),
    {
        !self.table_exists
    }
}

} // verus!
