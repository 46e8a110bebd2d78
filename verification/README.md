# grok_tools

The decisions of a set of agent tools, verified with Verus. The library in `src/`
holds no I/O: it takes what was read, says what to do, and every function states
what it returns.

- `context`: context windows of a session, their history and private notes
- `coordinator`: subagents of a session: starting, mail, cancelling, waking
- `elicitation`: forms
- `image_gen`, `view_image`: images
- `memory`: experiences and how old things are
- `mission`: missions, their queue of features, and the steps of a run
- `native_agents`: agents of a native team and calls on their way
- `patch`: why a patch does not apply
- `sessions`: other sessions of a machine
- `swarm`: many subagents at a measured pace
- `virtual_tasks`: background tasks that are no processes
- `web_search`, `x_search`: searching
- `workflow`: workflow runs, their journal and replay
- `attribution`: what is told of requests that were not authorized
- `precision`: shares and durations as single and double precision have them
- `text`, `json`, `headers`, `table`, `tool`, `ids`: what the others share

`tests/` runs the library; `app/` is ordinary Rust around it: files, requests,
channels and timers.
