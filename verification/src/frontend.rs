//! The landing page of the exchange, rendered to a fixed HTML string. The
//! surrounding program serves it as the body of the root route.

use vstd::prelude::*;
use vstd::string::StringExecFns;

verus! {

/// The exact markup of the landing page.
pub open spec fn home_markup() -> Seq<char> {
    "<!DOCTYPE html><html><head><meta charset=\"utf-8\"><meta name=\"viewport\" content=\"width=device-width, initial-scale=1.0\"><meta name=\"darkreader-lock\"><title>Trade</title><script src=\"https://cdn.tailwindcss.com/3.4.15\"></script></head><body class=\"flex flex-col h-screen bg-white\"><nav class=\"z-50 bg-white shadow-[0px_5px_10px_2px_rgba(0,0,0,0.3)]\"><div class=\"text-white bg-black\"><div class=\"flex justify-between mx-auto max-w-5xl\"><p class=\"my-auto pr-3\">Trade</p><a href=\"#events\" class=\"\">Log Out</a></div></div></nav><main class=\"overflow-scroll text-black py-4 max-w-5xl w-full mx-auto\"></main></body></html>"@
}

/// Renders the landing page.
pub fn home() -> (r: String)
    ensures
        r@ == home_markup(),
{
    String::from_str(
        "<!DOCTYPE html><html><head><meta charset=\"utf-8\"><meta name=\"viewport\" content=\"width=device-width, initial-scale=1.0\"><meta name=\"darkreader-lock\"><title>Trade</title><script src=\"https://cdn.tailwindcss.com/3.4.15\"></script></head><body class=\"flex flex-col h-screen bg-white\"><nav class=\"z-50 bg-white shadow-[0px_5px_10px_2px_rgba(0,0,0,0.3)]\"><div class=\"text-white bg-black\"><div class=\"flex justify-between mx-auto max-w-5xl\"><p class=\"my-auto pr-3\">Trade</p><a href=\"#events\" class=\"\">Log Out</a></div></div></nav><main class=\"overflow-scroll text-black py-4 max-w-5xl w-full mx-auto\"></main></body></html>",
    )
}

} // verus!
