# marketview

The logic of a viewer of crypto markets, written and proved in Verus.

- `market`, `timeframe`, `ticker`, `stream`, `unique_streams`: exchanges, tickers, and the
  streams that are in use.
- `calendar`, `timezone`, `time_label`: calendar boundaries and labels of a time axis in the
  user's zone. The calendar itself is `chrono`'s.
- `limiter`: rate limits by fixed windows and by what a source reports.
- `json`, `listing`, `okex`, `mexc`: addresses of requests, and what is read from replies.
- `client`, `error`: which venue is asked for what, and what goes wrong.
- `comparison`, `axis_x`: the chart that compares lines and the time axis of a heatmap, as far
  as they do not need floating point. Floating-point numbers are carried by their bits.
- `text`: the little text handling that the rest needs.

`app/` is ordinary Rust around it: requests over the network, stored settings, floating point
and drawing with `iced`. The traits there (`HttpHub`, `VenueHandle`, `OkexSocket`, `Surroundings`,
`Camera`) are what it needs from the program that it is built into.
