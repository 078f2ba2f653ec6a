use vstd::prelude::*;

verus! {

/// The envelope a command hands back to the user interface.
#[derive(Clone, Debug)]
pub struct ApiResponse<T> {
    pub success: bool,
    pub data: Option<T>,
    pub count: Option<usize>,
    pub message: String,
}

/// Parameters of a look-up of one watch-list entry.
#[derive(Clone, Debug)]
pub struct SelectionParams {
    pub code: Option<String>,
}

/// A new order of the watch list, by stock code.
#[derive(Clone, Debug)]
pub struct UpdateSortRequest {
    pub new_order_codes: Vec<String>,
}

/// Parameters of the removal of one watch-list entry.
#[derive(Clone, Debug)]
pub struct DeleteRequest {
    pub code: String,
}

/// A watch-list entry.
#[derive(Clone, Debug)]
pub struct Selection {
    pub code: String,
    pub name: String,
    pub color: String,
    pub remark: String,
    pub sort: i32,
}

/// A new order of the watch list, by stock code.
#[derive(Clone, Debug)]
pub struct UpdateSelectionSortParams {
    pub new_order: Vec<String>,
}

/// Parameters of the removal of one holding.
#[derive(Clone, Debug)]
pub struct DeleteHoldingReq {
    pub id: i32,
}

/// Parameters of a query of holdings: current (1), history (0) or all.
#[derive(Clone, Debug)]
pub struct QueryHoldingsReq {
    pub status: Option<i32>,
}

/// One page of a longer list.
#[derive(Clone, Debug)]
pub struct PagedResult<T> {
    pub data: Vec<T>,
    pub total: i32,
    pub page: i32,
    pub page_size: i32,
    pub total_pages: i32,
}

/// Which page of the holding history to show, counted from 1.
#[derive(Clone, Debug)]
pub struct QueryHistoryParams {
    pub page: i32,
    pub page_size: i32,
}

/// The month whose trading statistics to compute.
#[derive(Clone, Debug)]
pub struct MonthlyStatsParams {
    pub year: i32,
    pub month: i32,
}

/// A market commentary, one per date.
#[derive(Clone, Debug)]
pub struct MarketAnalysis {
    pub date: String,
    pub analysis: String,
    pub status: String,
}

/// A new market commentary.
#[derive(Clone, Debug)]
pub struct AddMarketAnalysisReq {
    pub date: String,
    pub analysis: String,
    pub status: String,
}

/// Which page of the orders to show, counted from 1.
#[derive(Clone, Debug)]
pub struct QueryOrdersParams {
    pub page: i32,
    pub page_size: i32,
}

/// A written reflection on a stock.
#[derive(Clone, Debug)]
pub struct ReflectItem {
    pub id: i32,
    pub title: String,
    pub code: String,
    pub date: String,
    pub description: String,
}

/// A reflection as a list shows it.
#[derive(Clone, Debug)]
pub struct ReflectListItem {
    pub id: i32,
    pub title: String,
}

/// A new reflection, or an edit of the one with the given id.
#[derive(Clone, Debug)]
pub struct AddReflectReq {
    pub id: Option<i32>,
    pub code: String,
    pub title: String,
    pub date: String,
    pub description: String,
}

/// Parameters of a look-up or removal of one reflection.
#[derive(Clone, Debug)]
pub struct GetOrDeleteReflectReq {
    pub id: i32,
}

/// Parameters of the removal of one chart line.
#[derive(Clone, Debug)]
pub struct DeleteLineReq {
    pub id: i32,
}

/// A written review of a stock.
#[derive(Clone, Debug)]
pub struct StockReview {
    pub id: i32,
    pub title: String,
    pub code: String,
    pub date: String,
    pub review_type: String,
    pub description: String,
}

/// A review as a list shows it.
#[derive(Clone, Debug)]
pub struct StockReviewListItem {
    pub id: i32,
    pub title: String,
}

/// A new review, or an edit of the one with the given id.
#[derive(Clone, Debug)]
pub struct AddReviewReq {
    pub id: Option<i32>,
    pub review_type: String,
    pub code: String,
    pub title: String,
    pub date: String,
    pub description: String,
}

/// Parameters of a list of reviews of one type, optionally by title keyword.
#[derive(Clone, Debug)]
pub struct GetReviewListReq {
    pub review_type: String,
    pub keyword: Option<String>,
}

/// Parameters of a look-up or removal of one review.
#[derive(Clone, Debug)]
pub struct GetOrDeleteReviewReq {
    pub id: i32,
}

/// A page of the quote provider's stock list.
#[derive(Clone, Debug)]
pub struct StockApiResponse {
    pub data: StockData,
}

/// The stock list of one page and the total count.
#[derive(Clone, Debug)]
pub struct StockData {
    pub count: u32,
    pub list: Vec<StockItem>,
}

/// A listed stock: its symbol and name.
#[derive(Clone, Debug)]
pub struct StockItem {
    pub symbol: String,
    pub name: String,
}

/// Parameters of the removal of one trend line.
#[derive(Clone, Debug)]
pub struct DeleteTrendLineReq {
    pub id: i32,
}

/// Parameters of a candlestick query.
#[derive(Clone, Debug)]
pub struct GetStockDataParams {
    pub code: String,
    pub period: String,
    pub timestamp: Option<String>,
    pub limit: i32,
}

/// Parameters of an intraday chart query.
#[derive(Clone, Debug)]
pub struct GetMinuteDataParams {
    pub code: String,
}

} // verus!
