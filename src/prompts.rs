//! Prompts for the language-model collaborator, and reading its replies.

use vstd::prelude::*;
use vstd::string::*;
use crate::error::AIError;
use crate::text::{decimal, to_decimal};
use crate::types::{AIChatResponse, ColumnInfo, RawChatResponse, VisualizationSpec};
use crate::model::{CellView, ColumnKind, Dataset};
use crate::query::{cell_label, cell_text};

verus! {

/// Part 0 of the visualization prompt.
pub const VISUALIZATION_PROMPT_0: &'static str = "You are a data visualization assistant. Given a dataset schema and a user question, output a JSON specification for a chart.\n\nDATASET SCHEMA:\nTotal rows: ";

/// Part 1 of the visualization prompt.
pub const VISUALIZATION_PROMPT_1: &'static str = "\nColumns:\n";

/// Part 2 of the visualization prompt.
pub const VISUALIZATION_PROMPT_2: &'static str = "\n\nUSER QUESTION: ";

/// Part 3 of the visualization prompt.
pub const VISUALIZATION_PROMPT_3: &'static str = "\n\nCHART TYPE SELECTION RULES:\n- \"bar\": Use for comparing categories, rankings, distributions. Example: \"sales by region\", \"top 10 products\"\n- \"line\": Use for trends over time, continuous data. Example: \"revenue trend\", \"monthly growth\"\n- \"area\": Use for cumulative totals, filled time series. Example: \"cumulative sales\", \"stacked revenue over time\"\n- \"pie\": Use for proportions of a whole, percentages. Example: \"market share\", \"budget breakdown\", \"distribution by category\"\n- \"scatter\": Use for correlations, relationships between two numeric variables. Example: \"price vs quantity\", \"age vs income\"\n\nIMPORTANT: Match the chart type to the user's intent:\n- If user asks for \"pie chart\" or \"proportion\" or \"percentage\" or \"breakdown\" → use \"pie\"\n- If user asks for \"scatter plot\" or \"correlation\" or \"relationship between X and Y\" → use \"scatter\"\n- If user asks for \"area chart\" or \"cumulative\" or \"filled\" → use \"area\"\n- If user asks for \"line chart\" or \"trend\" or \"over time\" → use \"line\"\n- If user asks for \"bar chart\" or \"comparison\" or \"ranking\" → use \"bar\"\n\nRULES:\n1. Output ONLY valid JSON, no explanation or markdown\n2. Use exact column names from schema\n3. Choose the chart type that best matches the user's request\n4. Always use a valid aggregation: sum, avg, count, min, max, or median\n5. If the query is ambiguous, make reasonable assumptions\n6. NEVER use \"none\" or \"None\" for aggregation - always choose count as default\n\nOUTPUT FORMAT (use exact lowercase values):\n{\n  \"chartType\": \"bar|line|area|pie|scatter\",\n  \"xField\": \"column_name\",\n  \"yField\": \"column_name\",\n  \"aggregation\": \"sum|avg|count|min|max|median\",\n  \"groupBy\": null,\n  \"sortBy\": \"x|y|none\",\n  \"sortOrder\": \"asc|desc|none\",\n  \"title\": \"Chart Title\",\n  \"filters\": []\n}\n\nIMPORTANT: The \"aggregation\" field must be one of: sum, avg, count, min, max, median (lowercase only)";

/// Part 0 of the chat prompt.
pub const CHAT_PROMPT_0: &'static str = "You are a data analysis assistant. Analyze the user's request and respond appropriately.\n\nDATASET:\n- Total rows: ";

/// Part 1 of the chat prompt.
pub const CHAT_PROMPT_1: &'static str = "\n- Columns:\n";

/// Part 2 of the chat prompt.
pub const CHAT_PROMPT_2: &'static str = "\n\nSAMPLE DATA (first ";

/// Part 3 of the chat prompt.
pub const CHAT_PROMPT_3: &'static str = " rows):\n";

/// Part 4 of the chat prompt.
pub const CHAT_PROMPT_4: &'static str = "\n\nUSER REQUEST: ";

/// Part 5 of the chat prompt.
pub const CHAT_PROMPT_5: &'static str = "\n\nTASK:\n1. Determine if the user wants a VISUALIZATION or has a DATA QUESTION.\n2. For visualizations: provide chart specification and a brief explanation of what the chart shows.\n3. For data questions: provide a direct answer based on the schema and sample data.\n\nRESPONSE FORMAT (output ONLY valid JSON, no markdown):\n\nFor VISUALIZATION requests (show, chart, plot, compare, trend, etc.):\n{\n  \"intent\": \"visualization\",\n  \"spec\": {\n    \"chartType\": \"bar|line|area|pie|scatter\",\n    \"xField\": \"column_name\",\n    \"yField\": \"column_name\",\n    \"aggregation\": \"sum|avg|count|min|max|median\",\n    \"groupBy\": null,\n    \"sortBy\": \"x|y|none\",\n    \"sortOrder\": \"asc|desc|none\",\n    \"title\": \"Chart Title\",\n    \"filters\": []\n  },\n  \"explanation\": \"Brief explanation of what this chart displays and why this visualization is appropriate.\"\n}\n\nIMPORTANT: The \"aggregation\" field MUST be one of: sum, avg, count, min, max, median (lowercase only). NEVER use \"none\" or \"None\".\n\nFor DATA QUESTIONS (what, how many, total, average, list, etc.):\n{\n  \"intent\": \"question\",\n  \"answer\": \"Direct answer to the question.\",\n  \"insights\": [\n    {\"label\": \"Metric name\", \"value\": \"value\"},\n    {\"label\": \"Another metric\", \"value\": \"value\"}\n  ]\n}\n\nRULES:\n- Use exact column names from the schema\n- For questions about totals, counts, or aggregations, provide your best estimate based on sample data\n- Keep explanations concise (1-2 sentences)\n- Insights are optional; include only if there are relevant supporting metrics\n- For aggregation, choose: sum for totals, avg for averages, count for frequencies, min/max for ranges, median for central tendency\n- NEVER use \"none\" or \"None\" for aggregation field";

/// The strings of `s` with `sep` between each two.
pub open spec fn joined_by(s: Seq<Seq<char>>, sep: Seq<char>) -> Seq<char>
    decreases s.len(),
{
    if s.len() == 0 {
        Seq::empty()
    } else if s.len() == 1 {
        s[0]
    } else {
        joined_by(s.drop_last(), sep) + sep + s.last()
    }
}

/// Joins strings with a separator.
pub fn join_with(parts: &Vec<String>, sep: &str) -> (r: String)
    ensures
        r@ == joined_by(parts@.map_values(|p: String| p@), sep@),
{
    let ghost pv = parts@.map_values(|p: String| p@);
    let mut out = String::new();
    let mut j: usize = 0;
    while j < parts.len()
        invariant
            j <= parts@.len(),
            pv == parts@.map_values(|p: String| p@),
            out@ == joined_by(pv.take(j as int), sep@),
        decreases parts@.len() - j,
    {
        assert(pv.take(j + 1).drop_last() =~= pv.take(j as int));
        assert(pv.take(j + 1).last() == parts@[j as int]@);
        if j > 0 {
            out.append(sep);
        } else {
            assert(out@ =~= Seq::<char>::empty());
        }
        out.append(parts[j].as_str());
        assert(out@ =~= joined_by(pv.take(j + 1), sep@));
        j = j + 1;
    }
    assert(pv.take(parts@.len() as int) =~= pv);
    out
}

/// The schema line of a column in the visualization prompt.
pub open spec fn schema_line(c: ColumnInfo) -> Seq<char> {
    "  - "@ + c.name@ + " ("@ + c.dtype@ + (if c.nullable { ", nullable"@ } else { Seq::empty() }) + ")"@
}

/// The schema line of a column in the chat prompt.
pub open spec fn chat_schema_line(c: ColumnInfo) -> Seq<char> {
    "  - "@ + c.name@ + " ("@ + c.dtype@ + ")"@
}

pub open spec fn schema_lines(cols: Seq<ColumnInfo>) -> Seq<char> {
    joined_by(cols.map_values(|c: ColumnInfo| schema_line(c)), "\n"@)
}

pub open spec fn chat_schema_lines(cols: Seq<ColumnInfo>) -> Seq<char> {
    joined_by(cols.map_values(|c: ColumnInfo| chat_schema_line(c)), "\n"@)
}

/// The prompt that asks for a chart specification.
pub open spec fn visualization_prompt(query: Seq<char>, cols: Seq<ColumnInfo>, row_count: nat) -> Seq<char> {
    VISUALIZATION_PROMPT_0@ + decimal(row_count) + VISUALIZATION_PROMPT_1@ + schema_lines(cols)
        + VISUALIZATION_PROMPT_2@ + query + VISUALIZATION_PROMPT_3@
}

/// The sample rows as a table: a header of column names, then one line per row, cells
/// separated by `" | "`.
pub open spec fn sample_table(cols: Seq<ColumnInfo>, rows: Seq<Seq<Seq<char>>>) -> Seq<char> {
    if rows.len() == 0 {
        "No sample data available."@
    } else {
        joined_by(cols.map_values(|c: ColumnInfo| c.name@), " | "@) + "\n"@ + joined_by(
            rows.map_values(|r: Seq<Seq<char>>| joined_by(r, " | "@)),
            "\n"@,
        )
    }
}

/// The prompt that tells a chart request from a data question.
pub open spec fn chat_prompt(
    query: Seq<char>,
    cols: Seq<ColumnInfo>,
    row_count: nat,
    rows: Seq<Seq<Seq<char>>>,
) -> Seq<char> {
    CHAT_PROMPT_0@ + decimal(row_count) + CHAT_PROMPT_1@ + chat_schema_lines(cols) + CHAT_PROMPT_2@
        + decimal(rows.len()) + CHAT_PROMPT_3@ + sample_table(cols, rows) + CHAT_PROMPT_4@ + query
        + CHAT_PROMPT_5@
}

pub open spec fn rows_text(rows: Seq<Vec<String>>) -> Seq<Seq<Seq<char>>> {
    rows.map_values(|r: Vec<String>| r@.map_values(|s: String| s@))
}

fn schema_text(columns: &Vec<ColumnInfo>, with_nullable: bool) -> (r: String)
    ensures
        with_nullable ==> r@ == schema_lines(columns@),
        !with_nullable ==> r@ == chat_schema_lines(columns@),
{
    proof {
        reveal_strlit("  - ");
        reveal_strlit(" (");
        reveal_strlit(", nullable");
        reveal_strlit(")");
    }
    let mut lines: Vec<String> = Vec::new();
    let mut i: usize = 0;
    while i < columns.len()
        invariant
            i <= columns@.len(),
            lines@.len() == i,
            forall|k: int| 0 <= k < i ==> #[trigger] lines@[k]@ == if with_nullable {
                schema_line(columns@[k])
            } else {
                chat_schema_line(columns@[k])
            },
        decreases columns@.len() - i,
    {
        let c = &columns[i];
        let mut l = String::from_str("  - ");
        l.append(c.name.as_str());
        l.append(" (");
        l.append(c.dtype.as_str());
        if with_nullable && c.nullable {
            l.append(", nullable");
        }
        l.append(")");
        proof {
            if with_nullable {
                assert(l@ =~= schema_line(columns@[i as int]));
            } else {
                assert(l@ =~= chat_schema_line(columns@[i as int]));
            }
        }
        lines.push(l);
        i = i + 1;
    }
    let r = join_with(&lines, "\n");
    proof {
        if with_nullable {
            assert(lines@.map_values(|p: String| p@) =~= columns@.map_values(|c: ColumnInfo| schema_line(c)));
        } else {
            assert(lines@.map_values(|p: String| p@) =~= columns@.map_values(|c: ColumnInfo| chat_schema_line(c)));
        }
    }
    r
}

/// The prompt that asks the model for a chart specification of `user_query` over a
/// dataset of `row_count` rows with these columns.
pub fn build_visualization_prompt(user_query: &str, columns: &Vec<ColumnInfo>, row_count: usize) -> (r: String)
    ensures
        r@ == visualization_prompt(user_query@, columns@, row_count as nat),
{
    let mut s = String::from_str(VISUALIZATION_PROMPT_0);
    s.append(to_decimal(row_count as u128).as_str());
    s.append(VISUALIZATION_PROMPT_1);
    s.append(schema_text(columns, true).as_str());
    s.append(VISUALIZATION_PROMPT_2);
    s.append(user_query);
    s.append(VISUALIZATION_PROMPT_3);
    s
}

fn sample_text(columns: &Vec<ColumnInfo>, sample_rows: &Vec<Vec<String>>) -> (r: String)
    ensures
        r@ == sample_table(columns@, rows_text(sample_rows@)),
{
    proof {
        reveal_strlit("No sample data available.");
        reveal_strlit("\n");
    }
    if sample_rows.len() == 0 {
        return String::from_str("No sample data available.");
    }
    let mut names: Vec<String> = Vec::new();
    let mut i: usize = 0;
    while i < columns.len()
        invariant
            i <= columns@.len(),
            names@.len() == i,
            forall|k: int| 0 <= k < i ==> #[trigger] names@[k]@ == columns@[k].name@,
        decreases columns@.len() - i,
    {
        names.push(columns[i].name.clone());
        i = i + 1;
    }
    assert(names@.map_values(|p: String| p@) =~= columns@.map_values(|c: ColumnInfo| c.name@));
    let mut lines: Vec<String> = Vec::new();
    let mut j: usize = 0;
    while j < sample_rows.len()
        invariant
            j <= sample_rows@.len(),
            lines@.len() == j,
            forall|k: int| 0 <= k < j ==> #[trigger] lines@[k]@ == joined_by(sample_rows@[k]@.map_values(|s: String| s@), " | "@),
        decreases sample_rows@.len() - j,
    {
        lines.push(join_with(&sample_rows[j], " | "));
        j = j + 1;
    }
    assert(lines@.map_values(|p: String| p@) =~= rows_text(sample_rows@).map_values(
        |r: Seq<Seq<char>>| joined_by(r, " | "@),
    ));
    let mut s = join_with(&names, " | ");
    s.append("\n");
    s.append(join_with(&lines, "\n").as_str());
    s
}

/// The prompt that asks the model whether `user_query` wants a chart or an answer, with
/// the schema and a few sample rows.
pub fn build_chat_prompt(
    user_query: &str,
    columns: &Vec<ColumnInfo>,
    row_count: usize,
    sample_rows: &Vec<Vec<String>>,
) -> (r: String)
    ensures
        r@ == chat_prompt(user_query@, columns@, row_count as nat, rows_text(sample_rows@)),
{
    let mut s = String::from_str(CHAT_PROMPT_0);
    s.append(to_decimal(row_count as u128).as_str());
    s.append(CHAT_PROMPT_1);
    s.append(schema_text(columns, false).as_str());
    s.append(CHAT_PROMPT_2);
    s.append(to_decimal(sample_rows.len() as u128).as_str());
    s.append(CHAT_PROMPT_3);
    s.append(sample_text(columns, sample_rows).as_str());
    s.append(CHAT_PROMPT_4);
    s.append(user_query);
    s.append(CHAT_PROMPT_5);
    s
}

/// Position of the first `c` in `t`, or its length.
pub open spec fn first_of(t: Seq<char>, c: char) -> int
    decreases t.len(),
{
    if t.len() == 0 {
        0
    } else if t[0] == c {
        0
    } else {
        1 + first_of(t.drop_first(), c)
    }
}

/// Position of the last `c` in `t`, or -1 when there is none.
pub open spec fn last_of(t: Seq<char>, c: char) -> int
    decreases t.len(),
{
    if t.len() == 0 {
        -1
    } else if t.last() == c {
        t.len() - 1
    } else {
        last_of(t.drop_last(), c)
    }
}

/// The JSON object in a reply: from the first `{` to the last `}`, when the last comes
/// after the first. (Surrounding whitespace lies outside that span.)
pub open spec fn json_span(t: Seq<char>) -> Option<Seq<char>> {
    let s = first_of(t, '{');
    let e = last_of(t, '}');
    if s < t.len() && e > s {
        Some(t.subrange(s, e + 1))
    } else {
        None
    }
}

proof fn lemma_first_of(t: Seq<char>, c: char, k: int)
    requires
        0 <= k <= t.len(),
        forall|j: int| 0 <= j < k ==> t[j] != c,
        k < t.len() ==> t[k] == c,
    ensures
        first_of(t, c) == k,
    decreases k,
{
    if k > 0 {
        assert forall|j: int| 0 <= j < k - 1 implies t.drop_first()[j] != c by {
            assert(t.drop_first()[j] == t[j + 1]);
        }
        lemma_first_of(t.drop_first(), c, k - 1);
    }
}

proof fn lemma_last_of(t: Seq<char>, c: char, k: int)
    requires
        -1 <= k < t.len(),
        forall|j: int| k < j < t.len() ==> t[j] != c,
        k >= 0 ==> t[k] == c,
    ensures
        last_of(t, c) == k,
    decreases t.len(),
{
    if t.len() > 0 && k < t.len() - 1 {
        lemma_last_of(t.drop_last(), c, k);
    }
}

/// The JSON object of a model reply (see `json_span`), or `None`.
pub fn extract_json(response: &str) -> (r: Option<String>)
    ensures
        match r {
            Some(j) => json_span(response@) == Some(j@),
            None => json_span(response@) is None,
        },
{
    let t = String::from_str(response);
    let chars = crate::text::chars_of(&t);
    let n = chars.len();
    let mut s: usize = 0;
    while s < n && chars[s] != '{'
        invariant
            s <= n,
            n == chars@.len(),
            forall|j: int| 0 <= j < s ==> chars@[j] != '{',
        decreases n - s,
    {
        s = s + 1;
    }
    proof {
        lemma_first_of(chars@, '{', s as int);
    }
    let mut e: usize = n;
    while e > 0 && chars[e - 1] != '}'
        invariant
            e <= n,
            n == chars@.len(),
            forall|j: int| e <= j < n ==> chars@[j] != '}',
        decreases e,
    {
        e = e - 1;
    }
    proof {
        lemma_last_of(chars@, '}', e - 1);
    }
    if s < n && e > 0 && e - 1 > s {
        let sub = t.as_str().substring_char(s, e);
        let out = sub.to_string();
        proof {
            assert(to_string_from_display_ensures::<str>(sub, out));
        }
        Some(out)
    } else {
        None
    }
}

/// A spec names only columns of the dataset: its X and Y fields, its grouping and its filters.
pub open spec fn names_known_columns(spec: VisualizationSpec, cols: Seq<ColumnInfo>) -> bool {
    let names = cols.map_values(|c: ColumnInfo| c.name@);
    &&& names.contains(spec.x_field@)
    &&& names.contains(spec.y_field@)
    &&& (spec.group_by matches Some(g) ==> names.contains(g@))
    &&& forall|i: int| 0 <= i < spec.filters@.len() ==> names.contains(#[trigger] spec.filters@[i].column@)
}

pub open spec fn known(cols: Seq<ColumnInfo>, name: Seq<char>) -> bool {
    cols.map_values(|c: ColumnInfo| c.name@).contains(name)
}

/// The position of the first filter whose column is unknown.
pub open spec fn first_unknown_filter(spec: VisualizationSpec, cols: Seq<ColumnInfo>) -> int {
    choose|k: int| 0 <= k < spec.filters@.len() && !known(cols, spec.filters@[k].column@) && forall|j: int|
        0 <= j < k ==> known(cols, #[trigger] spec.filters@[j].column@)
}

/// The message naming the first unknown column: the X field, the Y field, the grouping,
/// then the filters in order.
pub open spec fn first_unknown_message(spec: VisualizationSpec, cols: Seq<ColumnInfo>) -> Seq<char> {
    if !known(cols, spec.x_field@) {
        "Column '"@ + spec.x_field@ + "' not found in dataset"@
    } else if !known(cols, spec.y_field@) {
        "Column '"@ + spec.y_field@ + "' not found in dataset"@
    } else if spec.group_by is Some && !known(cols, spec.group_by->Some_0@) {
        "Group by column '"@ + spec.group_by->Some_0@ + "' not found in dataset"@
    } else {
        "Filter column '"@ + spec.filters@[first_unknown_filter(spec, cols)].column@ + "' not found in dataset"@
    }
}

fn is_known(name: &String, columns: &Vec<ColumnInfo>) -> (r: bool)
    ensures
        r == columns@.map_values(|c: ColumnInfo| c.name@).contains(name@),
{
    let ghost names = columns@.map_values(|c: ColumnInfo| c.name@);
    let mut i: usize = 0;
    while i < columns.len()
        invariant
            i <= columns@.len(),
            names == columns@.map_values(|c: ColumnInfo| c.name@),
            forall|k: int| 0 <= k < i ==> names[k] != name@,
        decreases columns@.len() - i,
    {
        if columns[i].name == *name {
            assert(names[i as int] == name@);
            return true;
        }
        i = i + 1;
    }
    false
}

/// Checks that a model's spec names only columns of the dataset; the first unknown one
/// is reported as a failed request.
pub fn validate_spec(spec: &VisualizationSpec, columns: &Vec<ColumnInfo>) -> (r: Result<(), AIError>)
    ensures
        r is Ok <==> names_known_columns(*spec, columns@),
        r matches Err(e) ==> (e matches AIError::RequestFailed(m) && m@ == first_unknown_message(*spec, columns@)),
{
    proof {
        reveal_strlit("Column '");
        reveal_strlit("' not found in dataset");
        reveal_strlit("Group by column '");
        reveal_strlit("Filter column '");
    }
    if !is_known(&spec.x_field, columns) {
        let mut m = String::from_str("Column '");
        m.append(spec.x_field.as_str());
        m.append("' not found in dataset");
        return Err(AIError::RequestFailed(m));
    }
    if !is_known(&spec.y_field, columns) {
        let mut m = String::from_str("Column '");
        m.append(spec.y_field.as_str());
        m.append("' not found in dataset");
        return Err(AIError::RequestFailed(m));
    }
    if let Some(g) = &spec.group_by {
        if !is_known(g, columns) {
            let mut m = String::from_str("Group by column '");
            m.append(g.as_str());
            m.append("' not found in dataset");
            return Err(AIError::RequestFailed(m));
        }
    }
    let mut i: usize = 0;
    while i < spec.filters.len()
        invariant
            i <= spec.filters@.len(),
            known(columns@, spec.x_field@),
            known(columns@, spec.y_field@),
            spec.group_by is Some ==> known(columns@, spec.group_by->Some_0@),
            forall|k: int| 0 <= k < i ==> columns@.map_values(|c: ColumnInfo| c.name@).contains(
                #[trigger] spec.filters@[k].column@,
            ),
        decreases spec.filters@.len() - i,
    {
        if !is_known(&spec.filters[i].column, columns) {
            proof {
                let pred = |k: int| 0 <= k < spec.filters@.len() && !known(columns@, spec.filters@[k].column@) && forall|j: int|
                    0 <= j < k ==> known(columns@, #[trigger] spec.filters@[j].column@);
                assert forall|j: int| 0 <= j < i implies known(columns@, #[trigger] spec.filters@[j].column@) by {
                    assert(columns@.map_values(|c: ColumnInfo| c.name@).contains(spec.filters@[j].column@));
                }
                assert(pred(i as int));
                let k = first_unknown_filter(*spec, columns@);
                assert(pred(k));
                if k < i {
                    assert(known(columns@, spec.filters@[k].column@));
                } else if k > i {
                    assert(known(columns@, spec.filters@[i as int].column@));
                }
                assert(k == i);
                reveal_strlit("Filter column '");
                reveal_strlit("' not found in dataset");
            }
            let mut m = String::from_str("Filter column '");
            m.append(spec.filters[i].column.as_str());
            m.append("' not found in dataset");
            return Err(AIError::RequestFailed(m));
        }
        i = i + 1;
    }
    Ok(())
}

/// The explanation given when the model gave none.
pub open spec fn default_explanation(spec: VisualizationSpec) -> Seq<char> {
    spec.title@ + " showing "@ + spec.y_field@ + " by "@ + spec.x_field@ + "."@
}

/// Turns a model's chat reply into a response: a chart request must carry a spec that
/// names only known columns, a question must carry an answer; any other intent is
/// reported back as an error response.
pub fn chat_response(raw: RawChatResponse, columns: &Vec<ColumnInfo>) -> (r: Result<AIChatResponse, AIError>)
    ensures
        raw.intent@ == "visualization"@ ==> match raw.spec {
            None => r matches Err(AIError::ParseError(m)) && m@ == "Missing visualization spec in response"@,
            Some(spec) => if names_known_columns(spec, columns@) {
                r matches Ok(AIChatResponse::Visualization { spec: s2, explanation }) && s2 == spec
                    && explanation@ == match raw.explanation {
                    Some(e) => e@,
                    None => default_explanation(spec),
                }
            } else {
                r matches Err(AIError::RequestFailed(_))
            },
        },
        raw.intent@ == "question"@ ==> match raw.answer {
            None => r matches Err(AIError::ParseError(m)) && m@ == "Missing answer in response"@,
            Some(a) => r matches Ok(AIChatResponse::Answer { content, insights }) && content == a && insights == raw.insights,
        },
        raw.intent@ != "visualization"@ && raw.intent@ != "question"@ ==> (r matches Ok(AIChatResponse::Error { message })
            && message@ == "Unknown intent: "@ + raw.intent@),
{
    proof {
        reveal_strlit("visualization");
        reveal_strlit("question");
        reveal_strlit("Missing visualization spec in response");
        reveal_strlit("Missing answer in response");
        reveal_strlit("Unknown intent: ");
        reveal_strlit(" showing ");
        reveal_strlit(" by ");
        reveal_strlit(".");
        assert("visualization"@ != "question"@) by {
            assert("visualization"@[0] != "question"@[0]);
        }
    }
    if raw.intent == String::from_str("visualization") {
        let spec = match raw.spec {
            Some(s) => s,
            None => return Err(AIError::ParseError(String::from_str("Missing visualization spec in response"))),
        };
        match validate_spec(&spec, columns) {
            Ok(()) => {},
            Err(e) => return Err(e),
        }
        let explanation = match raw.explanation {
            Some(e) => e,
            None => {
                let mut e = spec.title.clone();
                e.append(" showing ");
                e.append(spec.y_field.as_str());
                e.append(" by ");
                e.append(spec.x_field.as_str());
                e.append(".");
                e
            },
        };
        Ok(AIChatResponse::Visualization { spec, explanation })
    } else if raw.intent == String::from_str("question") {
        match raw.answer {
            Some(content) => Ok(AIChatResponse::Answer { content, insights: raw.insights }),
            None => Err(AIError::ParseError(String::from_str("Missing answer in response"))),
        }
    } else {
        let mut message = String::from_str("Unknown intent: ");
        message.append(raw.intent.as_str());
        Ok(AIChatResponse::Error { message })
    }
}

/// The type name of a column, as shown to the model.
pub open spec fn kind_title(k: ColumnKind) -> Seq<char> {
    match k {
        ColumnKind::Integer => "Int64"@,
        ColumnKind::Boolean => "Boolean"@,
        ColumnKind::Text => "String"@,
        ColumnKind::Date => "Date"@,
        ColumnKind::Datetime => "Datetime"@,
    }
}

fn kind_title_text(k: ColumnKind) -> (r: String)
    ensures
        r@ == kind_title(k),
{
    proof {
        reveal_strlit("Int64");
        reveal_strlit("Boolean");
        reveal_strlit("String");
        reveal_strlit("Date");
        reveal_strlit("Datetime");
    }
    String::from_str(
        match k {
            ColumnKind::Integer => "Int64",
            ColumnKind::Boolean => "Boolean",
            ColumnKind::Text => "String",
            ColumnKind::Date => "Date",
            ColumnKind::Datetime => "Datetime",
        },
    )
}

/// The schema and first rows of a dataset as the prompts show them: each column with its
/// type (all nullable), the row count, and up to `max_rows` rows of cell texts.
pub fn extract_sample_rows(ds: &Dataset, max_rows: usize) -> (r: (Vec<ColumnInfo>, usize, Vec<Vec<String>>))
    requires
        ds.wf(),
    ensures
        r.0@.len() == ds.fields@.len(),
        forall|c: int| #![trigger r.0@[c]] 0 <= c < ds.fields@.len() ==> r.0@[c].name@ == ds.fields@[c].name@
            && r.0@[c].dtype@ == kind_title(ds.fields@[c].kind) && r.0@[c].nullable,
        r.1 == ds.rows@.len(),
        r.2@.len() == if max_rows < ds.rows@.len() { max_rows as int } else { ds.rows@.len() as int },
        forall|i: int, c: int| 0 <= i < r.2@.len() && 0 <= c < ds.fields@.len() ==> #[trigger] r.2@[i]@[c]@
            == cell_text(ds.rows_view()[i][c]),
        forall|i: int| 0 <= i < r.2@.len() ==> #[trigger] r.2@[i]@.len() == ds.fields@.len(),
{
    let mut columns: Vec<ColumnInfo> = Vec::new();
    let mut c: usize = 0;
    while c < ds.fields.len()
        invariant
            c <= ds.fields@.len(),
            columns@.len() == c,
            forall|k: int| #![trigger columns@[k]] 0 <= k < c ==> columns@[k].name@ == ds.fields@[k].name@
                && columns@[k].dtype@ == kind_title(ds.fields@[k].kind) && columns@[k].nullable,
        decreases ds.fields@.len() - c,
    {
        let ghost before = columns@;
        columns.push(ColumnInfo { name: ds.fields[c].name.clone(), dtype: kind_title_text(ds.fields[c].kind), nullable: true });
        assert(forall|k: int| 0 <= k < c ==> columns@[k] == before[k]);
        c = c + 1;
    }
    let n = ds.rows.len();
    let count = if max_rows < n { max_rows } else { n };
    let mut rows: Vec<Vec<String>> = Vec::new();
    let mut i: usize = 0;
    while i < count
        invariant
            ds.wf(),
            count <= ds.rows@.len(),
            i <= count,
            rows@.len() == i,
            forall|k: int, c: int| 0 <= k < i && 0 <= c < ds.fields@.len() ==> #[trigger] rows@[k]@[c]@
                == cell_text(ds.rows_view()[k][c]),
            forall|k: int| 0 <= k < i ==> #[trigger] rows@[k]@.len() == ds.fields@.len(),
        decreases count - i,
    {
        assert(ds.rows@[i as int]@.len() == ds.fields@.len());
        assert(ds.rows_view()[i as int] == crate::model::cells_view(ds.rows@[i as int]@));
        let mut row: Vec<String> = Vec::new();
        let mut c: usize = 0;
        while c < ds.fields.len()
            invariant
                ds.wf(),
                i < ds.rows@.len(),
                ds.rows@[i as int]@.len() == ds.fields@.len(),
                ds.rows_view()[i as int] == crate::model::cells_view(ds.rows@[i as int]@),
                c <= ds.fields@.len(),
                row@.len() == c,
                forall|m: int| 0 <= m < c ==> #[trigger] row@[m]@ == cell_text(ds.rows_view()[i as int][m]),
            decreases ds.fields@.len() - c,
        {
            row.push(cell_label(&ds.rows[i][c]));
            c = c + 1;
        }
        let ghost before = rows@;
        rows.push(row);
        assert forall|k: int, m: int| 0 <= k <= i && 0 <= m < ds.fields@.len() implies #[trigger] rows@[k]@[m]@
            == cell_text(ds.rows_view()[k][m]) by {
            if k < i {
                assert(rows@[k] == before[k]);
            }
        }
        i = i + 1;
    }
    (columns, n, rows)
}

} // verus!
