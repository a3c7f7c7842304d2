# onwards

An AI gateway: it takes requests for models, checks who asks, chooses an upstream among the
providers of the model, forwards the request and passes the answer on. Beside it stands a switcher
that puts models to sleep and wakes them, so that several can share one machine.

`src/` is the library. Every function in it states what it does in `requires` and `ensures`, and
Verus proves it. The calls into other crates (JSON, URLs, header maps, hashing, random numbers) stand
behind small functions whose contracts are believed; each names the function that it calls.

- `auth`, `errors`, `headers`, `json`, `models`, `names`, `settings`, `span`, `sse`, `text`: parts
- `target`, `load_balancer`: upstreams, limits, pools and the choice of a provider
- `histories`: what holds of a pool over any number of selections and releases
- `handlers`: admission of a request, what an upstream is sent, errors hidden in responses, the
  course of a request from the choice of a provider to its answer, reasoning settings and chosen ids
- `cache`, `cache_usage`: cache counts in requests and responses
- `model_switcher`: the switching of models, its policies, and how servers are put to sleep and woken
- `switch_proxy`: the settings and decisions of the standalone switcher
- `script_tools`, `test_utils`: tools that run scripts, and upstreams made up for tests

The public proof functions whose names begin with `law_` state what holds of several functions
together.

`app/` is the program around the library: arguments, files, sockets and timers. It performs what the
library decides and hands back what happened.

`tests/` runs the library, with a gateway that has no network.
