//! The columns of the report: what each is called, what it shows of a
//! connection, how much room it takes and by what it is filtered.

use crate::networking::types::address_port_pair::AddressPortPair;
use crate::networking::types::data_representation::{amount_text, DataRepr};
use crate::networking::types::info_address_port_pair::{InfoAddressPortPair, InfoView};
use crate::networking::types::service::service_label;
use crate::report::types::search_parameters::FilterInputType;
use crate::text::{
    bracketed, capitalize, capitalized, decimal, decimal_text, in_brackets, lower_case,
    lower_case_of, push_char,
};
use crate::translations::types::labels::{Labels, LabelsView};
use crate::translations::types::language::Language;
use vstd::prelude::*;

verus! {

/// Width of a column that shows an address.
pub const LARGE_COL_WIDTH: u32 = 221;

/// Width of any other column.
pub const SMALL_COL_WIDTH: u32 = 95;

/// Width of the seven columns together.
pub const TOTAL_WIDTH: u32 = 917;

/// Most characters shown in a column that shows an address.
pub const LARGE_COL_MAX_CHARS: usize = 25;

/// Most characters shown in any other column.
pub const SMALL_COL_MAX_CHARS: usize = 10;

/// A column of the report.
#[derive(Clone, Copy, Debug, PartialEq, Eq, Structural, Hash)]
pub enum ReportCol {
    SrcIp,
    SrcPort,
    DstIp,
    DstPort,
    Proto,
    Service,
    Data,
}

/// What stands in a port column: the port number, or a dash where the
/// connection has no port.
pub open spec fn port_text(port: Option<u16>) -> Seq<char> {
    match port {
        Some(number) => decimal(number as nat),
        None => seq!['-'],
    }
}

/// Sum of the widths of the given columns.
pub open spec fn widths_sum(columns: Seq<ReportCol>) -> nat
    decreases columns.len(),
{
    if columns.len() == 0 {
        0
    } else {
        widths_sum(columns.drop_last()) + columns.last().width()
    }
}

/// The text of a port column.
fn port_string(port: Option<u16>) -> (text: String)
    ensures
        text@ == port_text(port),
{
    match port {
        Some(number) => decimal_text(number as u128),
        None => {
            let mut text = String::new();
            push_char(&mut text, '-');
            assert(text@ =~= seq!['-']);
            text
        },
    }
}

impl ReportCol {
    /// Width of the six columns by which rows can be filtered: all but the
    /// data column.
    pub const FILTER_COLUMNS_WIDTH: u32 = 4 * SMALL_COL_WIDTH + 2 * LARGE_COL_WIDTH;

    /// The seven columns, in the order in which the report shows them.
    pub open spec fn columns() -> Seq<ReportCol> {
        seq![
            ReportCol::SrcIp,
            ReportCol::SrcPort,
            ReportCol::DstIp,
            ReportCol::DstPort,
            ReportCol::Proto,
            ReportCol::Service,
            ReportCol::Data,
        ]
    }

    /// The column's title: the word for what it shows; for the data column
    /// the word for the quantity, with its first character in upper case.
    pub open spec fn title(self, labels: LabelsView, data_repr: DataRepr) -> Seq<char> {
        match self {
            ReportCol::SrcIp | ReportCol::DstIp => labels.address,
            ReportCol::SrcPort | ReportCol::DstPort => labels.port,
            ReportCol::Proto => labels.protocol,
            ReportCol::Service => labels.service,
            ReportCol::Data => capitalized(data_repr.label(labels)),
        }
    }

    /// What follows the title of a column that belongs to one end: the
    /// word for that end, in lower case and between brackets. Nothing for
    /// the other columns.
    pub open spec fn title_direction_info(self, labels: LabelsView) -> Seq<char> {
        match self {
            ReportCol::SrcIp | ReportCol::SrcPort => bracketed(lower_case(labels.source)),
            ReportCol::DstIp | ReportCol::DstPort => bracketed(lower_case(labels.destination)),
            _ => Seq::empty(),
        }
    }

    /// What the column shows of a connection.
    pub open spec fn value(self, key: AddressPortPair, val: InfoView, data_repr: DataRepr) -> Seq<
        char,
    > {
        match self {
            ReportCol::SrcIp => key.address1.text(),
            ReportCol::SrcPort => port_text(key.port1),
            ReportCol::DstIp => key.address2.text(),
            ReportCol::DstPort => port_text(key.port2),
            ReportCol::Proto => key.protocol.name(),
            ReportCol::Service => service_label(val.service),
            ReportCol::Data => amount_text(data_repr, val.total(data_repr)),
        }
    }

    /// The column's width: large for an address, small for anything else.
    pub open spec fn width(self) -> nat {
        match self {
            ReportCol::SrcIp | ReportCol::DstIp => LARGE_COL_WIDTH as nat,
            _ => SMALL_COL_WIDTH as nat,
        }
    }

    /// Most characters that the column shows in a language written in a
    /// narrow script.
    pub open spec fn base_max_chars(self) -> nat {
        match self {
            ReportCol::SrcIp | ReportCol::DstIp => LARGE_COL_MAX_CHARS as nat,
            _ => SMALL_COL_MAX_CHARS as nat,
        }
    }

    /// Most characters that the column shows in the given language, or in
    /// English where none is given: half as many, rounded down, in a
    /// language written in a wide script.
    pub open spec fn max_chars(self, language_opt: Option<Language>) -> nat {
        let language = match language_opt {
            Some(language) => language,
            None => Language::EN,
        };
        if language.wide_script() {
            self.base_max_chars() / 2
        } else {
            self.base_max_chars()
        }
    }

    /// The field by which the column's filter text selects rows. The data
    /// column has no filter of its own and stands for the country.
    pub open spec fn filter_input_type(self) -> FilterInputType {
        match self {
            ReportCol::SrcIp => FilterInputType::AddressSrc,
            ReportCol::DstIp => FilterInputType::AddressDst,
            ReportCol::SrcPort => FilterInputType::PortSrc,
            ReportCol::DstPort => FilterInputType::PortDst,
            ReportCol::Proto => FilterInputType::Proto,
            ReportCol::Service => FilterInputType::Service,
            ReportCol::Data => FilterInputType::Country,
        }
    }

    /// The seven columns, in the order in which the report shows them.
    pub fn all() -> (columns: Vec<ReportCol>)
        ensures
            columns@ == ReportCol::columns(),
    {
        let mut columns: Vec<ReportCol> = Vec::new();
        columns.push(ReportCol::SrcIp);
        columns.push(ReportCol::SrcPort);
        columns.push(ReportCol::DstIp);
        columns.push(ReportCol::DstPort);
        columns.push(ReportCol::Proto);
        columns.push(ReportCol::Service);
        columns.push(ReportCol::Data);
        assert(columns@ =~= ReportCol::columns());
        columns
    }

    /// The column's title in the language of the given words.
    pub fn get_title(&self, labels: &Labels, data_repr: DataRepr) -> (title: String)
        ensures
            title@ == self.title(labels@, data_repr),
    {
        match self {
            ReportCol::SrcIp | ReportCol::DstIp => labels.address.clone(),
            ReportCol::SrcPort | ReportCol::DstPort => labels.port.clone(),
            ReportCol::Proto => labels.protocol.clone(),
            ReportCol::Service => labels.service.clone(),
            ReportCol::Data => capitalize(data_repr.get_label(labels).as_str()),
        }
    }

    /// What follows the column's title to tell the two ends apart.
    pub fn get_title_direction_info(&self, labels: &Labels) -> (info: String)
        ensures
            info@ == self.title_direction_info(labels@),
    {
        match self {
            ReportCol::SrcIp | ReportCol::SrcPort => {
                let lower = lower_case_of(labels.source.as_str());
                in_brackets(lower.as_str())
            },
            ReportCol::DstIp | ReportCol::DstPort => {
                let lower = lower_case_of(labels.destination.as_str());
                in_brackets(lower.as_str())
            },
            _ => String::new(),
        }
    }

    /// What the column shows of the connection `key` with the totals `val`.
    pub fn get_value(&self, key: &AddressPortPair, val: &InfoAddressPortPair, data_repr: DataRepr) -> (text:
        String)
        ensures
            text@ == self.value(*key, val@, data_repr),
    {
        match self {
            ReportCol::SrcIp => key.address1.to_text(),
            ReportCol::SrcPort => port_string(key.port1),
            ReportCol::DstIp => key.address2.to_text(),
            ReportCol::DstPort => port_string(key.port2),
            ReportCol::Proto => key.protocol.to_text(),
            ReportCol::Service => val.service.to_text(),
            ReportCol::Data => data_repr.formatted_string(val.transmitted_data(data_repr)),
        }
    }

    /// The column's width.
    pub fn get_width(&self) -> (width: u32)
        ensures
            width == self.width(),
    {
        match self {
            ReportCol::SrcIp | ReportCol::DstIp => LARGE_COL_WIDTH,
            _ => SMALL_COL_WIDTH,
        }
    }

    /// Most characters that the column shows in the given language.
    pub fn get_max_chars(&self, language_opt: Option<Language>) -> (chars: usize)
        ensures
            chars == self.max_chars(language_opt),
    {
        let language = match language_opt {
            Some(language) => language,
            None => Language::EN,
        };
        let reduction_factor: usize = if language.is_wide_script() {
            2
        } else {
            1
        };
        match self {
            ReportCol::SrcIp | ReportCol::DstIp => LARGE_COL_MAX_CHARS / reduction_factor,
            _ => SMALL_COL_MAX_CHARS / reduction_factor,
        }
    }

    /// The field by which the column's filter text selects rows.
    pub fn get_filter_input_type(&self) -> (field: FilterInputType)
        ensures
            field == self.filter_input_type(),
    {
        match self {
            ReportCol::SrcIp => FilterInputType::AddressSrc,
            ReportCol::DstIp => FilterInputType::AddressDst,
            ReportCol::SrcPort => FilterInputType::PortSrc,
            ReportCol::DstPort => FilterInputType::PortDst,
            ReportCol::Proto => FilterInputType::Proto,
            ReportCol::Service => FilterInputType::Service,
            ReportCol::Data => FilterInputType::Country,
        }
    }
}

/// The widths of the seven columns add up to the width of the layout.
pub proof fn lemma_widths_fill_layout()
    ensures
        widths_sum(ReportCol::columns()) == TOTAL_WIDTH,
        ReportCol::columns().len() == 7,
        ReportCol::columns().no_duplicates(),
        forall|column: ReportCol| ReportCol::columns().contains(column),
{
    let all = ReportCol::columns();
    reveal_with_fuel(widths_sum, 8);
    assert(all.drop_last() =~= seq![
        ReportCol::SrcIp,
        ReportCol::SrcPort,
        ReportCol::DstIp,
        ReportCol::DstPort,
        ReportCol::Proto,
        ReportCol::Service,
    ]);
    assert(all.drop_last().drop_last() =~= seq![
        ReportCol::SrcIp,
        ReportCol::SrcPort,
        ReportCol::DstIp,
        ReportCol::DstPort,
        ReportCol::Proto,
    ]);
    assert(all.drop_last().drop_last().drop_last() =~= seq![
        ReportCol::SrcIp,
        ReportCol::SrcPort,
        ReportCol::DstIp,
        ReportCol::DstPort,
    ]);
    assert(all.drop_last().drop_last().drop_last().drop_last() =~= seq![
        ReportCol::SrcIp,
        ReportCol::SrcPort,
        ReportCol::DstIp,
    ]);
    assert(all.drop_last().drop_last().drop_last().drop_last().drop_last() =~= seq![
        ReportCol::SrcIp,
        ReportCol::SrcPort,
    ]);
    assert(all.drop_last().drop_last().drop_last().drop_last().drop_last().drop_last() =~= seq![
        ReportCol::SrcIp,
    ]);
    assert forall|column: ReportCol| all.contains(column) by {
        let at: int = match column {
            ReportCol::SrcIp => 0,
            ReportCol::SrcPort => 1,
            ReportCol::DstIp => 2,
            ReportCol::DstPort => 3,
            ReportCol::Proto => 4,
            ReportCol::Service => 5,
            ReportCol::Data => 6,
        };
        assert(all[at] == column);
    }
}

/// In a language written in a wide script every column shows half as many
/// characters, rounded down, as it shows in English.
pub proof fn lemma_wide_script_halves(column: ReportCol, language: Language)
    requires
        language.wide_script(),
    ensures
        column.max_chars(Some(language)) == column.max_chars(Some(Language::EN)) / 2,
        column.max_chars(Some(language)) == column.max_chars(None) / 2,
{
}

} // verus!
